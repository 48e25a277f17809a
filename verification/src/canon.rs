//! The canonical lines of the GUI's commands, and the law that reading a
//! canonical line gives the command back.

use vstd::prelude::*;
use crate::err::UziErrView;
use crate::gui::GoView;
use crate::gui::GuiCmdView;
use crate::gui::PosOptView;
use crate::gui::PosView;
use crate::opt::UciOptView;
use crate::parse::fen_text;
use crate::parse::go_arg;
use crate::parse::go_cmd_of;
use crate::parse::go_key_of;
use crate::parse::go_max;
use crate::parse::go_of;
use crate::parse::go_set;
use crate::parse::id_len;
use crate::parse::leading_moves;
use crate::parse::parse_of;
use crate::parse::position_of;
use crate::parse::setopt_of;
use crate::parse::GoKey;
use crate::text::all_digits;
use crate::text::dec;
use crate::text::dec_value;
use crate::text::digit;
use crate::text::is_space;
use crate::text::number_of;
use crate::tokens::lemma_spans_within;
use crate::tokens::skip_spaces;
use crate::tokens::span_texts;
use crate::tokens::spans_from;
use crate::tokens::token_end;
use crate::tokens::tokens;

verus! {

/// A word: a text that is not empty and holds no white space.
pub open spec fn is_word(w: Seq<char>) -> bool {
    w.len() > 0 && forall|k: int| 0 <= k < w.len() ==> !is_space(#[trigger] w[k])
}

/// Whether every item of a list is a word.
pub open spec fn all_words(ws: Seq<Seq<char>>) -> bool {
    forall|k: int| 0 <= k < ws.len() ==> is_word(#[trigger] ws[k])
}

/// The words of a list with one space between each two.
pub open spec fn join_words(ws: Seq<Seq<char>>) -> Seq<char>
    decreases ws.len(),
{
    if ws.len() == 0 {
        Seq::<char>::empty()
    } else if ws.len() == 1 {
        ws[0]
    } else {
        ws[0] + seq![' '] + join_words(ws.skip(1))
    }
}

/// A run of characters that are no white space, with white space or the end
/// of the line behind it, is where a token ends.
pub proof fn lemma_token_end_at(s: Seq<char>, i: int, e: int)
    requires
        0 <= i <= e <= s.len(),
        forall|k: int| i <= k < e ==> !is_space(#[trigger] s[k]),
        e < s.len() ==> is_space(s[e]),
    ensures
        token_end(s, i) == e,
    decreases e - i,
{
    if i < e {
        lemma_token_end_at(s, i + 1, e);
    }
}

/// The tokens of words with one space between each two are those words.
pub proof fn lemma_tokens_of_words(ws: Seq<Seq<char>>)
    requires
        all_words(ws),
    ensures
        tokens(join_words(ws)) == ws,
{
    let s = join_words(ws);
    assert(s.skip(0) =~= s);
    lemma_tokens_from(s, 0, ws);
}

/// Where a line from a place on is made of words with one space between
/// each two, its first token from there is the first word, and behind it the
/// line goes on in the same way.
pub proof fn lemma_first_word(s: Seq<char>, i: int, ws: Seq<Seq<char>>)
    requires
        0 <= i <= s.len(),
        all_words(ws),
        ws.len() > 0,
        s.skip(i) == join_words(ws),
    ensures
        i + ws[0].len() <= s.len(),
        s.subrange(i, i + ws[0].len()) == ws[0],
        all_words(ws.skip(1)),
        ws.len() == 1 ==> i + ws[0].len() == s.len() && spans_from(s, i) == seq![
            (i, i + ws[0].len()),
        ],
        ws.len() > 1 ==> i + ws[0].len() < s.len() && skip_spaces(s, i + ws[0].len()) == i
            + ws[0].len() + 1 && s.skip(i + ws[0].len() + 1) == join_words(ws.skip(1))
            && spans_from(s, i) == seq![(i, i + ws[0].len())] + spans_from(
            s,
            i + ws[0].len() + 1,
        ) && s.subrange(i, i + ws[0].len() + 1) == ws[0] + seq![' '],
{
    let w = ws[0];
    assert(is_word(w));
    let e = i + w.len();
    let tail = s.skip(i);
    assert(forall|k: int| 0 <= k < tail.len() ==> tail[k] == s[i + k]);
    assert(all_words(ws.skip(1))) by {
        assert forall|k: int| 0 <= k < ws.skip(1).len() implies is_word(
            #[trigger] ws.skip(1)[k],
        ) by {
            assert(ws.skip(1)[k] == ws[k + 1]);
        }
    }
    if ws.len() == 1 {
        assert(tail == w);
        assert forall|k: int| i <= k < e implies !is_space(#[trigger] s[k]) by {
            assert(s[k] == w[k - i]);
        }
        lemma_token_end_at(s, i, e);
        assert(s.subrange(i, e) =~= w);
        assert(spans_from(s, e) =~= Seq::<(int, int)>::empty());
        assert(spans_from(s, i) =~= seq![(i, e)]);
    } else {
        let more = join_words(ws.skip(1));
        assert(tail == w + seq![' '] + more);
        assert(tail.len() == w.len() + 1 + more.len());
        assert forall|k: int| i <= k < e implies !is_space(#[trigger] s[k]) by {
            assert(s[k] == tail[k - i]);
            assert(tail[k - i] == w[k - i]);
        }
        assert(s[e] == tail[e - i]);
        assert(tail[e - i] == ' ');
        lemma_token_end_at(s, i, e);
        assert(s.subrange(i, e) =~= w);
        assert(s.subrange(i, e + 1) =~= w + seq![' ']);
        assert(tail.skip(e + 1 - i) =~= more);
        assert(s.skip(e + 1) =~= tail.skip(e + 1 - i));
        if ws.skip(1).len() > 0 {
            assert(is_word(ws.skip(1)[0]));
            assert(more.len() > 0 && more[0] == ws.skip(1)[0][0]) by {
                if ws.skip(1).len() == 1 {
                } else {
                    assert(more == ws.skip(1)[0] + seq![' '] + join_words(ws.skip(1).skip(1)));
                }
            }
            assert(s[e + 1] == more[0]);
        }
        assert(skip_spaces(s, e + 1) == e + 1);
        assert(skip_spaces(s, e) == e + 1);
        assert(spans_from(s, e) == spans_from(s, e + 1));
    }
}

/// The tokens of a line that, from a place on, is made of words with one
/// space between each two are those words.
pub proof fn lemma_tokens_from(s: Seq<char>, i: int, ws: Seq<Seq<char>>)
    requires
        0 <= i <= s.len(),
        all_words(ws),
        s.skip(i) == join_words(ws),
    ensures
        span_texts(s, spans_from(s, i)) == ws,
    decreases ws.len(),
{
    if ws.len() == 0 {
        assert(s.skip(i).len() == 0);
        assert(span_texts(s, spans_from(s, i)) =~= ws);
    } else {
        lemma_first_word(s, i, ws);
        let e = i + ws[0].len();
        if ws.len() == 1 {
            assert(span_texts(s, spans_from(s, i)) =~= ws);
        } else {
            lemma_tokens_from(s, e + 1, ws.skip(1));
            assert(span_texts(s, spans_from(s, i)) =~= seq![ws[0]] + span_texts(
                s,
                spans_from(s, e + 1),
            ));
            assert(seq![ws[0]] + ws.skip(1) =~= ws);
        }
    }
}

/// In a line of words with one space between each two, the text from the
/// place `i`, where the words `ws` begin, to the end of the token `b` is the
/// first `b + 1` words with one space between each two.
pub proof fn lemma_words_upto(s: Seq<char>, i: int, ws: Seq<Seq<char>>, b: int)
    requires
        0 <= i <= s.len(),
        all_words(ws),
        s.skip(i) == join_words(ws),
        0 <= b < ws.len(),
    ensures
        spans_from(s, i).len() > b,
        i <= spans_from(s, i)[b].1 <= s.len(),
        s.subrange(i, spans_from(s, i)[b].1) == join_words(ws.take(b + 1)),
    decreases b,
{
    lemma_first_word(s, i, ws);
    let e = i + ws[0].len();
    if b == 0 {
        assert(ws.take(1) =~= seq![ws[0]]);
        assert(join_words(seq![ws[0]]) == ws[0]);
    } else {
        lemma_words_upto(s, e + 1, ws.skip(1), b - 1);
        let sp = spans_from(s, i);
        let rest = spans_from(s, e + 1);
        assert(sp[b] == rest[b - 1]);
        let front = ws.take(b + 1);
        assert(front.skip(1) =~= ws.skip(1).take(b));
        assert(front[0] == ws[0]);
        assert(s.subrange(i, sp[b].1) =~= s.subrange(i, e + 1) + s.subrange(e + 1, sp[b].1));
        assert(join_words(front) == front[0] + seq![' '] + join_words(front.skip(1)));
    }
}

/// In a line of words with one space between each two, the token `k` begins
/// where the words from `k` on begin, and the text between the tokens `a`
/// and `b` is the words from `a` to `b` with one space between each two.
/// Behind the last token the line ends; behind any other, the next token
/// begins after one space.
pub proof fn lemma_words_between(s: Seq<char>, i: int, ws: Seq<Seq<char>>, a: int, b: int)
    requires
        0 <= i <= s.len(),
        all_words(ws),
        s.skip(i) == join_words(ws),
        0 <= a <= b < ws.len(),
    ensures
        spans_from(s, i).len() > b,
        0 <= spans_from(s, i)[a].0 <= spans_from(s, i)[b].1 <= s.len(),
        s.subrange(spans_from(s, i)[a].0, spans_from(s, i)[b].1) == join_words(
            ws.subrange(a, b + 1),
        ),
        s.skip(spans_from(s, i)[a].0) == join_words(ws.skip(a)),
        b + 1 == ws.len() ==> spans_from(s, i)[b].1 == s.len(),
        b + 1 < ws.len() ==> spans_from(s, i).len() > b + 1 && skip_spaces(
            s,
            spans_from(s, i)[b].1,
        ) == spans_from(s, i)[b + 1].0,
    decreases a,
{
    lemma_first_word(s, i, ws);
    let e = i + ws[0].len();
    let sp = spans_from(s, i);
    if a == 0 {
        lemma_words_upto(s, i, ws, b);
        assert(ws.take(b + 1) =~= ws.subrange(0, b + 1));
        assert(ws.skip(0) =~= ws);
        lemma_words_end(s, i, ws, b);
    } else {
        lemma_words_between(s, e + 1, ws.skip(1), a - 1, b - 1);
        let rest = spans_from(s, e + 1);
        assert(sp[a] == rest[a - 1]);
        assert(sp[b] == rest[b - 1]);
        assert(ws.skip(1).subrange(a - 1, b) =~= ws.subrange(a, b + 1));
        assert(ws.skip(1).skip(a - 1) =~= ws.skip(a));
        if b + 1 < ws.len() {
            assert(sp[b + 1] == rest[b]);
        }
    }
}

/// Behind the last token of a line of words the line ends; behind any other,
/// the next token begins after one space.
pub proof fn lemma_words_end(s: Seq<char>, i: int, ws: Seq<Seq<char>>, b: int)
    requires
        0 <= i <= s.len(),
        all_words(ws),
        s.skip(i) == join_words(ws),
        0 <= b < ws.len(),
    ensures
        spans_from(s, i).len() > b,
        b + 1 == ws.len() ==> spans_from(s, i)[b].1 == s.len(),
        b + 1 < ws.len() ==> spans_from(s, i).len() > b + 1 && skip_spaces(
            s,
            spans_from(s, i)[b].1,
        ) == spans_from(s, i)[b + 1].0,
    decreases b,
{
    lemma_first_word(s, i, ws);
    let e = i + ws[0].len();
    let sp = spans_from(s, i);
    if b == 0 {
        if ws.len() > 1 {
            lemma_first_word(s, e + 1, ws.skip(1));
            assert(sp[1] == spans_from(s, e + 1)[0]);
        }
    } else {
        lemma_words_end(s, e + 1, ws.skip(1), b - 1);
        let rest = spans_from(s, e + 1);
        assert(sp[b] == rest[b - 1]);
        if b + 1 < ws.len() {
            assert(sp[b + 1] == rest[b]);
        }
    }
}

/// Every token of a line is a word.
pub proof fn lemma_tokens_are_words(s: Seq<char>)
    ensures
        all_words(tokens(s)),
{
    assert forall|k: int| 0 <= k < tokens(s).len() implies is_word(#[trigger] tokens(s)[k]) by {
        lemma_spans_within(s, 0, k);
        let sp = spans_from(s, 0)[k];
        let w = tokens(s)[k];
        assert(w == s.subrange(sp.0, sp.1));
        assert forall|j: int| 0 <= j < w.len() implies !is_space(#[trigger] w[j]) by {
            assert(w[j] == s[sp.0 + j]);
        }
    }
}

/// A decimal numeral is made of digits and stands for its number.
pub proof fn lemma_dec_round_trip(n: nat)
    ensures
        all_digits(dec(n)),
        dec(n).len() > 0,
        dec_value(dec(n)) == n,
        is_word(dec(n)),
    decreases n,
{
    if n < 10 {
        let d = dec(n);
        assert(d.drop_last() =~= Seq::<char>::empty());
        assert(dec_value(d.drop_last()) == 0);
        assert(d.last() == digit(n));
    } else {
        lemma_dec_round_trip(n / 10);
        let d = dec(n);
        assert(d.drop_last() =~= dec(n / 10));
        assert(d.last() == digit(n % 10));
    }
}

/// A number within a bound reads back from its decimal numeral.
pub proof fn lemma_number_of_dec(n: nat, max: nat)
    requires
        n <= max,
    ensures
        number_of(dec(n), max) == Some(n),
{
    lemma_dec_round_trip(n);
}

/// The number of an optional 16-bit field.
pub open spec fn n16(v: Option<u16>) -> Option<nat> {
    match v {
        Some(n) => Some(n as nat),
        None => None,
    }
}

/// The number of an optional 32-bit field.
pub open spec fn n32(v: Option<u32>) -> Option<nat> {
    match v {
        Some(n) => Some(n as nat),
        None => None,
    }
}

/// The number of an optional 64-bit field.
pub open spec fn n64(v: Option<u64>) -> Option<nat> {
    match v {
        Some(n) => Some(n as nat),
        None => None,
    }
}

/// A keyword and its number; nothing where the number is absent.
pub open spec fn num_words(kw: Seq<char>, v: Option<nat>) -> Seq<Seq<char>> {
    match v {
        Some(n) => seq![kw, dec(n)],
        None => Seq::<Seq<char>>::empty(),
    }
}

/// A keyword that stands alone; nothing where it is not set.
pub open spec fn flag_words(kw: Seq<char>, set: bool) -> Seq<Seq<char>> {
    if set {
        seq![kw]
    } else {
        Seq::<Seq<char>>::empty()
    }
}

/// The number of places in a canonical `go` line: one for each keyword.
pub open spec fn go_places() -> int {
    12
}

/// The words that the keyword at place `i` adds to the canonical line. The
/// order is that of the protocol's list of keywords.
pub open spec fn go_segment(g: GoView, i: int) -> Seq<Seq<char>> {
    if i == 0 {
        match g.search_moves {
            Some(ms) => seq!["searchmoves"@] + ms,
            None => Seq::<Seq<char>>::empty(),
        }
    } else if i == 1 {
        flag_words("ponder"@, g.ponder is Some)
    } else if i == 2 {
        num_words("wtime"@, n32(g.wtime))
    } else if i == 3 {
        num_words("btime"@, n32(g.btime))
    } else if i == 4 {
        num_words("winc"@, n16(g.winc))
    } else if i == 5 {
        num_words("binc"@, n16(g.binc))
    } else if i == 6 {
        num_words("movestogo"@, n16(g.moves_to_go))
    } else if i == 7 {
        num_words("depth"@, n16(g.depth))
    } else if i == 8 {
        num_words("nodes"@, n64(g.nodes))
    } else if i == 9 {
        num_words("mate"@, n16(g.mate))
    } else if i == 10 {
        num_words("movetime"@, n32(g.move_time))
    } else if i == 11 {
        flag_words("infinite"@, g.infinite is Some)
    } else {
        Seq::<Seq<char>>::empty()
    }
}

/// The words of the canonical line from place `i` on.
pub open spec fn go_words_from(g: GoView, i: int) -> Seq<Seq<char>>
    decreases go_places() - i,
{
    if i >= go_places() {
        Seq::<Seq<char>>::empty()
    } else {
        go_segment(g, i) + go_words_from(g, i + 1)
    }
}

/// The words behind `go` in the canonical line.
pub open spec fn go_words(g: GoView) -> Seq<Seq<char>> {
    go_words_from(g, 0)
}

/// The command with the fields of the places before `i` alone.
pub open spec fn go_upto(g: GoView, i: int) -> GoView {
    GoView {
        search_moves: if i > 0 {
            g.search_moves
        } else {
            None
        },
        ponder: if i > 1 {
            g.ponder
        } else {
            None
        },
        wtime: if i > 2 {
            g.wtime
        } else {
            None
        },
        btime: if i > 3 {
            g.btime
        } else {
            None
        },
        winc: if i > 4 {
            g.winc
        } else {
            None
        },
        binc: if i > 5 {
            g.binc
        } else {
            None
        },
        moves_to_go: if i > 6 {
            g.moves_to_go
        } else {
            None
        },
        depth: if i > 7 {
            g.depth
        } else {
            None
        },
        nodes: if i > 8 {
            g.nodes
        } else {
            None
        },
        mate: if i > 9 {
            g.mate
        } else {
            None
        },
        move_time: if i > 10 {
            g.move_time
        } else {
            None
        },
        infinite: if i > 11 {
            g.infinite
        } else {
            None
        },
    }
}

/// Whether a `go` command has a canonical line: something is set, `ponder`
/// is set to nothing but true, and the moves to search are words of which
/// none is a keyword.
pub open spec fn go_canonical(g: GoView) -> bool {
    &&& g != GoView::unset()
    &&& g.ponder != Some(false)
    &&& match g.search_moves {
        Some(ms) => forall|k: int|
            0 <= k < ms.len() ==> is_word(#[trigger] ms[k]) && go_key_of(ms[k]) is None,
        None => true,
    }
}

/// The keywords of `go` are told apart, and each is a word.
pub proof fn lemma_go_keys()
    ensures
        go_key_of("searchmoves"@) == Some(GoKey::SearchMoves),
        go_key_of("ponder"@) == Some(GoKey::Ponder),
        go_key_of("wtime"@) == Some(GoKey::WTime),
        go_key_of("btime"@) == Some(GoKey::BTime),
        go_key_of("winc"@) == Some(GoKey::WInc),
        go_key_of("binc"@) == Some(GoKey::BInc),
        go_key_of("movestogo"@) == Some(GoKey::MovesToGo),
        go_key_of("depth"@) == Some(GoKey::Depth),
        go_key_of("nodes"@) == Some(GoKey::Nodes),
        go_key_of("mate"@) == Some(GoKey::Mate),
        go_key_of("movetime"@) == Some(GoKey::MoveTime),
        go_key_of("infinite"@) == Some(GoKey::Infinite),
        is_word("searchmoves"@),
        is_word("ponder"@),
        is_word("wtime"@),
        is_word("btime"@),
        is_word("winc"@),
        is_word("binc"@),
        is_word("movestogo"@),
        is_word("depth"@),
        is_word("nodes"@),
        is_word("mate"@),
        is_word("movetime"@),
        is_word("infinite"@),
{
    reveal_strlit("searchmoves");
    reveal_strlit("ponder");
    reveal_strlit("wtime");
    reveal_strlit("btime");
    reveal_strlit("winc");
    reveal_strlit("binc");
    reveal_strlit("movestogo");
    reveal_strlit("depth");
    reveal_strlit("nodes");
    reveal_strlit("mate");
    reveal_strlit("movetime");
    reveal_strlit("infinite");
    assert("searchmoves"@.len() == 11 && "searchmoves"@[0] == 's');
    assert("ponder"@.len() == 6 && "ponder"@[0] == 'p');
    assert("wtime"@.len() == 5 && "wtime"@[0] == 'w');
    assert("btime"@.len() == 5 && "btime"@[0] == 'b');
    assert("winc"@.len() == 4 && "winc"@[0] == 'w');
    assert("binc"@.len() == 4 && "binc"@[0] == 'b');
    assert("movestogo"@.len() == 9 && "movestogo"@[0] == 'm');
    assert("depth"@.len() == 5 && "depth"@[0] == 'd');
    assert("nodes"@.len() == 5 && "nodes"@[0] == 'n');
    assert("mate"@.len() == 4 && "mate"@[0] == 'm');
    assert("movetime"@.len() == 8 && "movetime"@[0] == 'm');
    assert("infinite"@.len() == 8 && "infinite"@[0] == 'i');
}

/// A keyword with its number in front of a line sets its field.
pub proof fn lemma_go_num_step(
    key: GoKey,
    kw: Seq<char>,
    n: nat,
    rest: Seq<Seq<char>>,
    acc: GoView,
)
    requires
        go_key_of(kw) == Some(key),
        key != GoKey::SearchMoves,
        key != GoKey::Ponder,
        key != GoKey::Infinite,
        n <= go_max(key),
    ensures
        go_of(seq![kw, dec(n)] + rest, acc) == go_of(rest, go_set(acc, key, n)),
{
    let toks = seq![kw, dec(n)] + rest;
    assert(toks[0] == kw);
    assert(toks.skip(1)[0] == dec(n));
    assert(toks.skip(1).skip(1) =~= rest);
    lemma_number_of_dec(n, go_max(key));
    assert(go_arg(key, kw, toks.skip(1)) == Ok::<nat, UziErrView>(n));
}

/// Moves that are no keywords, in front of a keyword or of the end of the
/// line, are the leading moves.
pub proof fn lemma_leading_moves_of(ms: Seq<Seq<char>>, rest: Seq<Seq<char>>)
    requires
        forall|k: int| 0 <= k < ms.len() ==> go_key_of(#[trigger] ms[k]) is None,
        rest.len() == 0 || go_key_of(rest[0]) is Some,
    ensures
        leading_moves(ms + rest) == ms.len(),
    decreases ms.len(),
{
    if ms.len() == 0 {
        assert(ms + rest =~= rest);
    } else {
        assert((ms + rest)[0] == ms[0]);
        assert((ms + rest).skip(1) =~= ms.skip(1) + rest);
        assert forall|k: int| 0 <= k < ms.skip(1).len() implies go_key_of(
            #[trigger] ms.skip(1)[k],
        ) is None by {
            assert(ms.skip(1)[k] == ms[k + 1]);
        }
        lemma_leading_moves_of(ms.skip(1), rest);
    }
}

/// The canonical words from a place on are none, or begin with a keyword.
pub proof fn lemma_go_words_head(g: GoView, i: int)
    requires
        0 <= i <= go_places(),
    ensures
        go_words_from(g, i).len() == 0 || go_key_of(go_words_from(g, i)[0]) is Some,
    decreases go_places() - i,
{
    if i < go_places() {
        lemma_go_keys();
        lemma_go_words_head(g, i + 1);
        let seg = go_segment(g, i);
        let more = go_words_from(g, i + 1);
        if seg.len() == 0 {
            assert(seg + more =~= more);
        } else {
            assert((seg + more)[0] == seg[0]);
        }
    }
}

/// Every canonical word of a command that has a canonical line is a word.
pub proof fn lemma_go_words_are_words(g: GoView, i: int)
    requires
        0 <= i <= go_places(),
        go_canonical(g),
    ensures
        all_words(go_words_from(g, i)),
    decreases go_places() - i,
{
    if i < go_places() {
        lemma_go_keys();
        lemma_go_words_are_words(g, i + 1);
        let seg = go_segment(g, i);
        let more = go_words_from(g, i + 1);
        assert(all_words(seg)) by {
            if i == 0 {
                if let Some(ms) = g.search_moves {
                    assert forall|k: int| 0 <= k < seg.len() implies is_word(#[trigger] seg[k]) by {
                        if k > 0 {
                            assert(seg[k] == ms[k - 1]);
                        }
                    }
                }
            } else if i == 1 || i == 11 {
            } else {
                assert forall|k: int| 0 <= k < seg.len() implies is_word(#[trigger] seg[k]) by {
                    if k == 1 {
                        let n: nat = choose|n: nat| seg[1] == dec(n);
                        lemma_dec_round_trip(n);
                    }
                }
            }
        }
        assert forall|k: int| 0 <= k < (seg + more).len() implies is_word(
            #[trigger] (seg + more)[k],
        ) by {
            if k < seg.len() {
                assert((seg + more)[k] == seg[k]);
            } else {
                assert((seg + more)[k] == more[k - seg.len()]);
            }
        }
    }
}

/// Reading the canonical words from a place on, with the fields of the
/// places before it set, gives the command.
pub proof fn lemma_go_of_words(g: GoView, i: int)
    requires
        0 <= i <= go_places(),
        go_canonical(g),
    ensures
        go_of(go_words_from(g, i), go_upto(g, i)) == Ok::<GoView, UziErrView>(g),
    decreases go_places() - i,
{
    if i >= go_places() {
        assert(go_upto(g, i) == g);
    } else {
        lemma_go_keys();
        lemma_go_of_words(g, i + 1);
        let seg = go_segment(g, i);
        let more = go_words_from(g, i + 1);
        let acc = go_upto(g, i);
        let next = go_upto(g, i + 1);
        if seg.len() == 0 {
            assert(seg + more =~= more);
            assert(acc == next);
        } else if i == 0 {
            let ms = g.search_moves->Some_0;
            let toks = seg + more;
            assert(toks[0] == "searchmoves"@);
            assert(toks.skip(1) =~= ms + more);
            lemma_go_words_head(g, 1);
            lemma_leading_moves_of(ms, more);
            assert((ms + more).skip(ms.len() as int) =~= more);
            assert((ms + more).take(ms.len() as int) =~= ms);
            assert(next == (GoView { search_moves: Some(ms), ..acc }));
        } else if i == 1 {
            let toks = seg + more;
            assert(toks[0] == "ponder"@);
            assert(toks.skip(1) =~= more);
            assert(g.ponder->Some_0 == true);
            assert(g.ponder == Some(true));
            assert(next == (GoView { ponder: Some(true), ..acc }));
        } else if i == 11 {
            let toks = seg + more;
            assert(toks[0] == "infinite"@);
            assert(toks.skip(1) =~= more);
            assert(g.infinite->Some_0 == ());
            assert(g.infinite == Some(()));
            assert(next == (GoView { infinite: Some(()), ..acc }));
        } else if i == 2 {
            let n = g.wtime->Some_0 as nat;
            lemma_go_num_step(GoKey::WTime, "wtime"@, n, more, acc);
            assert(go_set(acc, GoKey::WTime, n) == next);
        } else if i == 3 {
            let n = g.btime->Some_0 as nat;
            lemma_go_num_step(GoKey::BTime, "btime"@, n, more, acc);
            assert(go_set(acc, GoKey::BTime, n) == next);
        } else if i == 4 {
            let n = g.winc->Some_0 as nat;
            lemma_go_num_step(GoKey::WInc, "winc"@, n, more, acc);
            assert(go_set(acc, GoKey::WInc, n) == next);
        } else if i == 5 {
            let n = g.binc->Some_0 as nat;
            lemma_go_num_step(GoKey::BInc, "binc"@, n, more, acc);
            assert(go_set(acc, GoKey::BInc, n) == next);
        } else if i == 6 {
            let n = g.moves_to_go->Some_0 as nat;
            lemma_go_num_step(GoKey::MovesToGo, "movestogo"@, n, more, acc);
            assert(go_set(acc, GoKey::MovesToGo, n) == next);
        } else if i == 7 {
            let n = g.depth->Some_0 as nat;
            lemma_go_num_step(GoKey::Depth, "depth"@, n, more, acc);
            assert(go_set(acc, GoKey::Depth, n) == next);
        } else if i == 8 {
            let n = g.nodes->Some_0 as nat;
            lemma_go_num_step(GoKey::Nodes, "nodes"@, n, more, acc);
            assert(go_set(acc, GoKey::Nodes, n) == next);
        } else if i == 9 {
            let n = g.mate->Some_0 as nat;
            lemma_go_num_step(GoKey::Mate, "mate"@, n, more, acc);
            assert(go_set(acc, GoKey::Mate, n) == next);
        } else if i == 10 {
            let n = g.move_time->Some_0 as nat;
            lemma_go_num_step(GoKey::MoveTime, "movetime"@, n, more, acc);
            assert(go_set(acc, GoKey::MoveTime, n) == next);
        }
    }
}

/// Reading the canonical words of a `go` command gives the command back.
pub proof fn lemma_go_round_trip(g: GoView)
    requires
        go_canonical(g),
    ensures
        go_cmd_of(go_words(g)) == Ok::<GoView, UziErrView>(g),
{
    lemma_go_of_words(g, 0);
    assert(go_upto(g, 0) == GoView::unset());
}

/// `moves` and the moves played; nothing where there are none.
pub open spec fn moves_words(moves: Option<Seq<Seq<char>>>) -> Seq<Seq<char>> {
    match moves {
        Some(ms) => seq!["moves"@] + ms,
        None => Seq::<Seq<char>>::empty(),
    }
}

/// The words that name the base position.
pub open spec fn base_words(base: PosOptView) -> Seq<Seq<char>> {
    match base {
        PosOptView::StartPos => seq!["startpos"@],
        PosOptView::Fen(f) => seq!["fen"@] + tokens(f),
    }
}

/// The words behind `position` in the canonical line.
pub open spec fn pos_words(p: PosView) -> Seq<Seq<char>> {
    base_words(p.pos) + moves_words(p.moves)
}

/// Whether a `position` command has a canonical line: its base, where it is
/// given in Forsyth-Edwards notation, is six fields with one space between
/// each two, and its moves, where it has any, are words.
pub open spec fn pos_canonical(p: PosView) -> bool {
    &&& match p.pos {
        PosOptView::StartPos => true,
        PosOptView::Fen(f) => tokens(f).len() == 6 && fen_text(tokens(f)) == f,
    }
    &&& match p.moves {
        Some(ms) => ms.len() > 0 && all_words(ms),
        None => true,
    }
}

/// Reading the canonical words of a `position` command gives the command
/// back.
pub proof fn lemma_pos_round_trip(p: PosView)
    requires
        pos_canonical(p),
    ensures
        position_of(pos_words(p)) == Ok::<PosView, UziErrView>(p),
        all_words(pos_words(p)),
{
    reveal_strlit("startpos");
    reveal_strlit("fen");
    reveal_strlit("moves");
    assert("startpos"@.len() == 8 && "fen"@.len() == 3 && "moves"@.len() == 5);
    let bw = base_words(p.pos);
    let mw = moves_words(p.moves);
    let toks = bw + mw;
    assert(toks[0] == bw[0]);
    assert(all_words(mw)) by {
        if let Some(ms) = p.moves {
            assert forall|k: int| 0 <= k < mw.len() implies is_word(#[trigger] mw[k]) by {
                if k > 0 {
                    assert(mw[k] == ms[k - 1]);
                }
            }
        }
    }
    if let Some(ms) = p.moves {
        assert(mw[0] == "moves"@);
        assert(mw.skip(1) =~= ms);
    }
    match p.pos {
        PosOptView::StartPos => {
            assert(toks.skip(1) =~= mw);
            assert(all_words(bw));
        },
        PosOptView::Fen(f) => {
            lemma_tokens_are_words(f);
            assert(toks.subrange(1, 7) =~= tokens(f));
            assert(toks.skip(7) =~= mw);
            assert forall|k: int| 0 <= k < bw.len() implies is_word(#[trigger] bw[k]) by {
                if k > 0 {
                    assert(bw[k] == tokens(f)[k - 1]);
                }
            }
        },
    }
    assert forall|k: int| 0 <= k < toks.len() implies is_word(#[trigger] toks[k]) by {
        if k < bw.len() {
            assert(toks[k] == bw[k]);
        } else {
            assert(toks[k] == mw[k - bw.len()]);
        }
    }
}

/// `value` and the words of the value; nothing where there is no value.
pub open spec fn value_words(value: Option<Seq<char>>) -> Seq<Seq<char>> {
    match value {
        Some(v) => seq!["value"@] + tokens(v),
        None => Seq::<Seq<char>>::empty(),
    }
}

/// The words behind `setoption` in the canonical line.
pub open spec fn setopt_words(o: UciOptView) -> Seq<Seq<char>> {
    seq!["name"@] + tokens(o.id) + value_words(o.value)
}

/// Whether a `setoption` command has a canonical line: its name is one or
/// more words with one space between each two, none of them `value`, and its
/// value, where it has one, is words with one space between each two.
pub open spec fn setopt_canonical(o: UciOptView) -> bool {
    &&& tokens(o.id).len() > 0
    &&& join_words(tokens(o.id)) == o.id
    &&& forall|k: int| 0 <= k < tokens(o.id).len() ==> #[trigger] tokens(o.id)[k] != "value"@
    &&& match o.value {
        Some(v) => join_words(tokens(v)) == v,
        None => true,
    }
}

/// Words of which none is `value`, in front of a `value` or of the end of
/// the line, are the words of the name.
pub proof fn lemma_id_len_of(iw: Seq<Seq<char>>, rest: Seq<Seq<char>>)
    requires
        forall|k: int| 0 <= k < iw.len() ==> #[trigger] iw[k] != "value"@,
        rest.len() == 0 || rest[0] == "value"@,
    ensures
        id_len(iw + rest) == iw.len(),
    decreases iw.len(),
{
    if iw.len() == 0 {
        assert(iw + rest =~= rest);
    } else {
        assert((iw + rest)[0] == iw[0]);
        assert((iw + rest).skip(1) =~= iw.skip(1) + rest);
        assert forall|k: int| 0 <= k < iw.skip(1).len() implies #[trigger] iw.skip(1)[k]
            != "value"@ by {
            assert(iw.skip(1)[k] == iw[k + 1]);
        }
        lemma_id_len_of(iw.skip(1), rest);
    }
}

/// Reading the canonical line of a `setoption` command gives the command
/// back.
pub proof fn lemma_setopt_round_trip(o: UciOptView)
    requires
        setopt_canonical(o),
    ensures
        all_words(seq!["setoption"@] + setopt_words(o)),
        tokens(join_words(seq!["setoption"@] + setopt_words(o))) == seq!["setoption"@]
            + setopt_words(o),
        setopt_of(
            join_words(seq!["setoption"@] + setopt_words(o)),
            spans_from(join_words(seq!["setoption"@] + setopt_words(o)), 0).skip(1),
        ) == Ok::<UciOptView, UziErrView>(o),
{
    reveal_strlit("setoption");
    reveal_strlit("name");
    reveal_strlit("value");
    assert("name"@.len() == 4 && "value"@.len() == 5);
    let iw = tokens(o.id);
    let n = iw.len() as int;
    let vw = value_words(o.value);
    let ws = seq!["setoption"@] + setopt_words(o);
    let line = join_words(ws);
    let spans = spans_from(line, 0);
    lemma_tokens_are_words(o.id);
    if let Some(v) = o.value {
        lemma_tokens_are_words(v);
    }
    assert(ws.len() == 2 + n + vw.len());
    assert(ws[0] == "setoption"@ && ws[1] == "name"@);
    assert forall|k: int| 0 <= k < ws.len() implies is_word(#[trigger] ws[k]) by {
        if 2 <= k < 2 + n {
            assert(ws[k] == iw[k - 2]);
        } else if k >= 2 + n {
            assert(ws[k] == vw[k - 2 - n]);
            if k > 2 + n {
                assert(vw[k - 2 - n] == tokens(o.value->Some_0)[k - 3 - n]);
            }
        }
    }
    lemma_tokens_of_words(ws);
    assert(spans.len() == ws.len());
    let toks = span_texts(line, spans.skip(1));
    assert(toks =~= ws.skip(1));
    assert(toks.skip(1) =~= iw + vw);
    lemma_id_len_of(iw, vw);
    assert(line.skip(0) =~= line);
    lemma_words_between(line, 0, ws, 2, n + 1);
    assert(ws.subrange(2, n + 2) =~= iw);
    assert(spans.skip(1)[1] == spans[2] && spans.skip(1)[n] == spans[n + 1]);
    match o.value {
        None => {
            assert(spans.skip(1).len() == n + 1);
        },
        Some(v) => {
            let tv = tokens(v);
            assert(spans.skip(1)[n + 1] == spans[n + 2]);
            lemma_words_between(line, 0, ws, n + 2, n + 2);
            if tv.len() == 0 {
                assert(v =~= Seq::<char>::empty());
                assert(line.subrange(line.len() as int, line.len() as int) =~= v);
            } else {
                lemma_words_between(line, 0, ws, n + 3, n + 3);
                assert(ws.skip(n + 3) =~= tv);
                assert(line.subrange(spans[n + 3].0, line.len() as int) =~= line.skip(
                    spans[n + 3].0,
                ));
            }
        },
    }
}

/// The words of the canonical line of a command.
pub open spec fn cmd_words(c: GuiCmdView) -> Seq<Seq<char>> {
    match c {
        GuiCmdView::Uci => seq!["uci"@],
        GuiCmdView::Debug(on) => seq![
            "debug"@,
            if on {
                "on"@
            } else {
                "off"@
            },
        ],
        GuiCmdView::IsReady => seq!["isready"@],
        GuiCmdView::SetOpt(o) => seq!["setoption"@] + setopt_words(o),
        GuiCmdView::NewGame => seq!["ucinewgame"@],
        GuiCmdView::Pos(p) => seq!["position"@] + pos_words(p),
        GuiCmdView::Go(g) => seq!["go"@] + go_words(g),
        GuiCmdView::Stop => seq!["stop"@],
        GuiCmdView::Ponderhit => seq!["ponderhit"@],
    }
}

/// The canonical line of a command: its words with one space between each
/// two.
pub open spec fn cmd_line(c: GuiCmdView) -> Seq<char> {
    join_words(cmd_words(c))
}

/// Whether a command has a canonical line.
pub open spec fn canonical(c: GuiCmdView) -> bool {
    match c {
        GuiCmdView::SetOpt(o) => setopt_canonical(o),
        GuiCmdView::Pos(p) => pos_canonical(p),
        GuiCmdView::Go(g) => go_canonical(g),
        _ => true,
    }
}

/// The names of the commands are told apart, and each is a word.
pub proof fn lemma_cmd_keys()
    ensures
        "uci"@.len() == 3,
        "debug"@.len() == 5 && "debug"@[0] == 'd',
        "isready"@.len() == 7,
        "setoption"@.len() == 9 && "setoption"@[0] == 's',
        "ucinewgame"@.len() == 10,
        "position"@.len() == 8,
        "go"@.len() == 2 && "go"@[0] == 'g',
        "stop"@.len() == 4,
        "ponderhit"@.len() == 9 && "ponderhit"@[0] == 'p',
        "on"@.len() == 2 && "on"@[0] == 'o',
        "off"@.len() == 3,
        is_word("uci"@),
        is_word("debug"@),
        is_word("isready"@),
        is_word("ucinewgame"@),
        is_word("position"@),
        is_word("go"@),
        is_word("stop"@),
        is_word("ponderhit"@),
        is_word("on"@),
        is_word("off"@),
{
    reveal_strlit("uci");
    reveal_strlit("debug");
    reveal_strlit("isready");
    reveal_strlit("setoption");
    reveal_strlit("ucinewgame");
    reveal_strlit("position");
    reveal_strlit("go");
    reveal_strlit("stop");
    reveal_strlit("ponderhit");
    reveal_strlit("on");
    reveal_strlit("off");
}

/// Reading the canonical line of a command gives the command back.
pub proof fn lemma_round_trip(c: GuiCmdView)
    requires
        canonical(c),
    ensures
        parse_of(cmd_line(c)) == Ok::<GuiCmdView, UziErrView>(c),
{
    lemma_cmd_keys();
    let ws = cmd_words(c);
    match c {
        GuiCmdView::Pos(p) => {
            lemma_pos_round_trip(p);
            let pw = pos_words(p);
            assert forall|k: int| 0 <= k < ws.len() implies is_word(#[trigger] ws[k]) by {
                if k > 0 {
                    assert(ws[k] == pw[k - 1]);
                }
            }
            assert(ws.skip(1) =~= pw);
        },
        GuiCmdView::Go(g) => {
            lemma_go_round_trip(g);
            lemma_go_words_are_words(g, 0);
            let gw = go_words(g);
            assert forall|k: int| 0 <= k < ws.len() implies is_word(#[trigger] ws[k]) by {
                if k > 0 {
                    assert(ws[k] == gw[k - 1]);
                }
            }
            assert(ws.skip(1) =~= gw);
        },
        GuiCmdView::Debug(on) => {
            assert(ws.skip(1)[0] == ws[1]);
        },
        GuiCmdView::SetOpt(o) => {
            lemma_setopt_round_trip(o);
        },
        _ => {},
    }
    lemma_tokens_of_words(ws);
    assert(ws[0].len() > 0);
}

} // verus!
