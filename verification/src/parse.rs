//! The grammar of the lines that a GUI sends, and the parser that reads them.
//!
//! Tokens behind a complete command that takes no argument (`uci`, `isready`,
//! `ucinewgame`, `stop`, `ponderhit`) or behind `debug on` and `debug off` are
//! ignored.

use vstd::prelude::*;
use vstd::string::StringExecFns;
use crate::err::UziErr;
use crate::err::UziErrView;
use crate::gui::Go;
use crate::gui::GoBuilder;
use crate::gui::GoView;
use crate::gui::GuiCmd;
use crate::gui::GuiCmdView;
use crate::gui::Pos;
use crate::gui::PosBuilder;
use crate::gui::PosOptView;
use crate::gui::PosView;
use crate::opt::UciOpt;
use crate::opt::UciOptView;
use crate::text::number_of;
use crate::text::parse_number;
use crate::text::same_text;
use crate::text::texts;
use crate::tokens::lemma_spans_within;
use crate::tokens::skip_spaces;
use crate::tokens::span_texts;
use crate::tokens::spans_from;
use crate::tokens::strs;
use crate::tokens::TokenStream;

verus! {

/// The six fields of a position in Forsyth-Edwards notation, with one space
/// between each two.
pub open spec fn fen_text(f: Seq<Seq<char>>) -> Seq<char> {
    f[0] + " "@ + f[1] + " "@ + f[2] + " "@ + f[3] + " "@ + f[4] + " "@ + f[5]
}

/// What stands behind the base position: nothing, or `moves` and the moves
/// played. Anything else is an unknown keyword; a move list without a base
/// position is no position.
pub open spec fn moves_part(base: Option<PosOptView>, toks: Seq<Seq<char>>) -> Result<
    PosView,
    UziErrView,
> {
    if toks.len() > 0 && toks[0] != "moves"@ {
        Err(UziErrView::UnknownOpt)
    } else {
        match base {
            None => Err(UziErrView::Position),
            Some(p) => Ok(
                PosView {
                    pos: p,
                    moves: if toks.len() > 1 {
                        Some(toks.skip(1))
                    } else {
                        None
                    },
                },
            ),
        }
    }
}

/// The `position` command that the tokens behind the keyword denote:
/// `startpos`, or `fen` and exactly six fields, which are kept as they are
/// and not looked into, then the moves.
pub open spec fn position_of(toks: Seq<Seq<char>>) -> Result<PosView, UziErrView> {
    if toks.len() > 0 && toks[0] == "startpos"@ {
        moves_part(Some(PosOptView::StartPos), toks.skip(1))
    } else if toks.len() > 0 && toks[0] == "fen"@ {
        if toks.len() < 7 {
            Err(UziErrView::What)
        } else {
            moves_part(Some(PosOptView::Fen(fen_text(toks.subrange(1, 7)))), toks.skip(7))
        }
    } else {
        moves_part(None, toks)
    }
}

/// The view of a result that carries a position.
pub open spec fn pos_result_view(r: Result<Pos, UziErr>) -> Result<PosView, UziErrView> {
    match r {
        Ok(p) => Ok(p@),
        Err(e) => Err(e@),
    }
}

/// Reads what stands behind the base position and builds the command.
fn parse_moves_part(b: &mut PosBuilder, toks: &Vec<&str>, from: usize) -> (r: Result<Pos, UziErr>)
    requires
        from <= toks.len(),
        old(b)@.moves is None,
    ensures
        pos_result_view(r) == moves_part(old(b)@.pos, strs(toks@).skip(from as int)),
{
    let ghost rest = strs(toks@).skip(from as int);
    if from >= toks.len() {
        return b.build();
    }
    if !same_text(toks[from], "moves") {
        return Err(UziErr::UnknownOpt);
    }
    let mut i: usize = from + 1;
    while i < toks.len()
        invariant
            from < i <= toks.len(),
            b@.pos == old(b)@.pos,
            rest == strs(toks@).skip(from as int),
            i == from + 1 ==> b@.moves is None,
            i > from + 1 ==> b@.moves == Some(rest.subrange(1, i - from)),
        decreases toks.len() - i,
    {
        let ghost before = b@.moves;
        b.add_move(toks[i]);
        proof {
            assert(rest[i - from] == toks@[i as int]@);
            if i == from + 1 {
                assert(seq![toks@[i as int]@] =~= rest.subrange(1, i + 1 - from));
            } else {
                assert(rest.subrange(1, i - from).push(toks@[i as int]@) =~= rest.subrange(
                    1,
                    i + 1 - from,
                ));
            }
        }
        i = i + 1;
    }
    proof {
        if rest.len() > 1 {
            assert(rest.subrange(1, rest.len() as int) =~= rest.skip(1));
        }
    }
    b.build()
}

/// Reads the tokens behind the keyword `position`.
pub fn parse_position(toks: &Vec<&str>) -> (r: Result<Pos, UziErr>)
    ensures
        pos_result_view(r) == position_of(strs(toks@)),
{
    let mut b = PosBuilder::new();
    let ghost all = strs(toks@);
    if toks.len() > 0 && same_text(toks[0], "startpos") {
        b.start_pos();
        parse_moves_part(&mut b, toks, 1)
    } else if toks.len() > 0 && same_text(toks[0], "fen") {
        if toks.len() < 7 {
            return Err(UziErr::What);
        }
        let mut fen = String::from_str(toks[1]);
        fen.append(" ");
        fen.append(toks[2]);
        fen.append(" ");
        fen.append(toks[3]);
        fen.append(" ");
        fen.append(toks[4]);
        fen.append(" ");
        fen.append(toks[5]);
        fen.append(" ");
        fen.append(toks[6]);
        proof {
            let f = all.subrange(1, 7);
            assert(f[0] == toks@[1]@ && f[1] == toks@[2]@ && f[2] == toks@[3]@ && f[3]
                == toks@[4]@ && f[4] == toks@[5]@ && f[5] == toks@[6]@);
            assert(fen@ =~= fen_text(f));
        }
        b.fen(fen.as_str());
        parse_moves_part(&mut b, toks, 7)
    } else {
        assert(all.skip(0) =~= all);
        parse_moves_part(&mut b, toks, 0)
    }
}

/// How many tokens stand before the first `value`, or before the end where
/// there is none.
pub open spec fn id_len(toks: Seq<Seq<char>>) -> nat
    decreases toks.len(),
{
    if toks.len() == 0 || toks[0] == "value"@ {
        0
    } else {
        1 + id_len(toks.skip(1))
    }
}

/// The assignment that the spans behind the keyword `setoption` denote:
/// `name`, then the option's name, which runs from its first token to its
/// last as the line has it, then, behind a `value`, the rest of the line as
/// the line has it, from its next token on. Where `name` is missing, or the
/// name has no token, the command is refused with `SetOptErr`.
pub open spec fn setopt_of(line: Seq<char>, spans: Seq<(int, int)>) -> Result<
    UciOptView,
    UziErrView,
> {
    let toks = span_texts(line, spans);
    if toks.len() == 0 || toks[0] != "name"@ {
        Err(UziErrView::SetOptErr)
    } else {
        let k = id_len(toks.skip(1)) as int;
        if k == 0 {
            Err(UziErrView::SetOptErr)
        } else {
            Ok(
                UciOptView {
                    id: line.subrange(spans[1].0, spans[k].1),
                    value: if k + 1 < spans.len() {
                        Some(
                            line.subrange(
                                skip_spaces(line, spans[k + 1].1),
                                line.len() as int,
                            ),
                        )
                    } else {
                        None
                    },
                },
            )
        }
    }
}

/// The view of a result that carries an assignment.
pub open spec fn opt_result_view(r: Result<UciOpt, UziErr>) -> Result<UciOptView, UziErrView> {
    match r {
        Ok(o) => Ok(o@),
        Err(e) => Err(e@),
    }
}

/// Reads what stands behind the keyword `setoption`.
pub fn parse_setopt(ts: &mut TokenStream) -> (r: Result<UciOpt, UziErr>)
    requires
        old(ts).wf(),
    ensures
        final(ts).wf(),
        final(ts).line() == old(ts).line(),
        opt_result_view(r) == setopt_of(old(ts).line(), old(ts).rest()),
{
    let ghost line = ts.line();
    let ghost spans = ts.rest();
    let ghost toks = span_texts(line, spans);
    match ts.next_token() {
        None => {
            return Err(UziErr::SetOptErr);
        },
        Some(t) => {
            if !same_text(t, "name") {
                return Err(UziErr::SetOptErr);
            }
        },
    }
    proof {
        old(ts).lemma_wf();
    }
    let mut have_id: bool = false;
    let mut start: usize = 0;
    let mut end: usize = 0;
    let mut value: Option<String> = None;
    let ghost mut k: int = 0;
    proof {
        assert(toks.skip(1).skip(0) =~= toks.skip(1));
    }
    loop
        invariant_except_break
            ts.rest() == spans.skip(1 + k),
            id_len(toks.skip(1)) == k + id_len(toks.skip(1).skip(k)),
            have_id == (k > 0),
            k > 0 ==> start == spans[1].0 && end == spans[k].1 && start <= end <= line.len(),
            value is None,
        invariant
            ts.wf(),
            ts.line() == line,
            line == old(ts).line(),
            0 <= old(ts).pos() <= line.len(),
            spans == old(ts).rest(),
            toks == span_texts(line, spans),
            0 <= k < spans.len(),
        ensures
            id_len(toks.skip(1)) == k,
            have_id == (k > 0),
            k > 0 ==> start == spans[1].0 && end == spans[k].1 && start <= end <= line.len(),
            match value {
                Some(v) => k + 1 < spans.len() && v@ == line.subrange(
                    skip_spaces(line, spans[k + 1].1),
                    line.len() as int,
                ),
                None => k + 1 == spans.len(),
            },
        decreases spans.len() - k,
    {
        proof {
            assert(toks.skip(1).skip(k).len() == spans.len() - 1 - k);
            if 1 + k < spans.len() {
                assert(toks.skip(1).skip(k)[0] == toks[1 + k]);
                assert(toks.skip(1).skip(k).skip(1) =~= toks.skip(1).skip(k + 1));
                assert(spans.skip(1 + k).skip(1) =~= spans.skip(2 + k));
                lemma_spans_within(line, old(ts).pos(), 1 + k);
                lemma_spans_within(line, old(ts).pos(), 1);
                if k > 0 {
                    lemma_spans_within(line, old(ts).pos(), k);
                    assert(spans.skip(k + 1)[0] == spans[k + 1]);
                    lemma_spans_within(line, spans[k].1, 0);
                }
            }
        }
        match ts.next_span() {
            None => {
                break ;
            },
            Some((a, b)) => {
                let t = ts.slice(a, b);
                if same_text(t, "value") {
                    value = Some(String::from_str(ts.remainder()));
                    break ;
                }
                if !have_id {
                    start = a;
                    have_id = true;
                }
                end = b;
                proof {
                    k = k + 1;
                }
            },
        }
    }
    if !have_id {
        return Err(UziErr::SetOptErr);
    }
    Ok(UciOpt { id: String::from_str(ts.slice(start, end)), value })
}

/// The keywords of the `go` command.
#[derive(Clone, Copy, Debug, PartialEq, Eq)]
pub enum GoKey {
    SearchMoves,
    Ponder,
    WTime,
    BTime,
    WInc,
    BInc,
    MovesToGo,
    Depth,
    Nodes,
    Mate,
    MoveTime,
    Infinite,
}

/// The keyword that a token is, if it is one.
pub open spec fn go_key_of(t: Seq<char>) -> Option<GoKey> {
    if t == "searchmoves"@ {
        Some(GoKey::SearchMoves)
    } else if t == "ponder"@ {
        Some(GoKey::Ponder)
    } else if t == "wtime"@ {
        Some(GoKey::WTime)
    } else if t == "btime"@ {
        Some(GoKey::BTime)
    } else if t == "winc"@ {
        Some(GoKey::WInc)
    } else if t == "binc"@ {
        Some(GoKey::BInc)
    } else if t == "movestogo"@ {
        Some(GoKey::MovesToGo)
    } else if t == "depth"@ {
        Some(GoKey::Depth)
    } else if t == "nodes"@ {
        Some(GoKey::Nodes)
    } else if t == "mate"@ {
        Some(GoKey::Mate)
    } else if t == "movetime"@ {
        Some(GoKey::MoveTime)
    } else if t == "infinite"@ {
        Some(GoKey::Infinite)
    } else {
        None
    }
}

/// Decides which keyword of `go` a token is.
pub fn go_key(t: &str) -> (k: Option<GoKey>)
    ensures
        k == go_key_of(t@),
{
    if same_text(t, "searchmoves") {
        Some(GoKey::SearchMoves)
    } else if same_text(t, "ponder") {
        Some(GoKey::Ponder)
    } else if same_text(t, "wtime") {
        Some(GoKey::WTime)
    } else if same_text(t, "btime") {
        Some(GoKey::BTime)
    } else if same_text(t, "winc") {
        Some(GoKey::WInc)
    } else if same_text(t, "binc") {
        Some(GoKey::BInc)
    } else if same_text(t, "movestogo") {
        Some(GoKey::MovesToGo)
    } else if same_text(t, "depth") {
        Some(GoKey::Depth)
    } else if same_text(t, "nodes") {
        Some(GoKey::Nodes)
    } else if same_text(t, "mate") {
        Some(GoKey::Mate)
    } else if same_text(t, "movetime") {
        Some(GoKey::MoveTime)
    } else if same_text(t, "infinite") {
        Some(GoKey::Infinite)
    } else {
        None
    }
}

/// How many tokens stand before the first keyword of `go`, or before the end
/// where there is none: the moves behind `searchmoves`.
pub open spec fn leading_moves(toks: Seq<Seq<char>>) -> nat
    decreases toks.len(),
{
    if toks.len() == 0 || go_key_of(toks[0]) is Some {
        0
    } else {
        1 + leading_moves(toks.skip(1))
    }
}

/// The moves behind `searchmoves` are tokens of the line.
pub proof fn lemma_leading_moves(toks: Seq<Seq<char>>)
    ensures
        leading_moves(toks) <= toks.len(),
    decreases toks.len(),
{
    if !(toks.len() == 0 || go_key_of(toks[0]) is Some) {
        lemma_leading_moves(toks.skip(1));
    }
}

/// The greatest number that a keyword's field can hold.
pub open spec fn go_max(key: GoKey) -> nat {
    match key {
        GoKey::WTime | GoKey::BTime | GoKey::MoveTime => u32::MAX as nat,
        GoKey::Nodes => u64::MAX as nat,
        _ => u16::MAX as nat,
    }
}

/// Whether a keyword's number is a time in milliseconds.
pub open spec fn is_millis(key: GoKey) -> bool {
    key == GoKey::WTime || key == GoKey::BTime || key == GoKey::WInc || key == GoKey::BInc || key
        == GoKey::MoveTime
}

/// The number behind a keyword that takes one. Where the line ends behind
/// the keyword, the command is refused with `GoErr`; a token that is no
/// number within the field's range is refused with `BadMillis`, the keyword
/// and the token in it, where the number is a time, and with `BadNumber`
/// where it is not.
pub open spec fn go_arg(key: GoKey, kw: Seq<char>, rest: Seq<Seq<char>>) -> Result<
    nat,
    UziErrView,
> {
    if rest.len() == 0 {
        Err(UziErrView::GoErr)
    } else {
        match number_of(rest[0], go_max(key)) {
            Some(n) => Ok(n),
            None => if is_millis(key) {
                Err(UziErrView::BadMillis(kw, rest[0]))
            } else {
                Err(UziErrView::BadNumber)
            },
        }
    }
}

/// The command with the field of a keyword that takes a number set to `n`.
pub open spec fn go_set(acc: GoView, key: GoKey, n: nat) -> GoView {
    match key {
        GoKey::WTime => GoView { wtime: Some(n as u32), ..acc },
        GoKey::BTime => GoView { btime: Some(n as u32), ..acc },
        GoKey::WInc => GoView { winc: Some(n as u16), ..acc },
        GoKey::BInc => GoView { binc: Some(n as u16), ..acc },
        GoKey::MovesToGo => GoView { moves_to_go: Some(n as u16), ..acc },
        GoKey::Depth => GoView { depth: Some(n as u16), ..acc },
        GoKey::Nodes => GoView { nodes: Some(n as u64), ..acc },
        GoKey::Mate => GoView { mate: Some(n as u16), ..acc },
        GoKey::MoveTime => GoView { move_time: Some(n as u32), ..acc },
        _ => acc,
    }
}

/// The limits that the tokens add to `acc`, read from left to right. Each
/// keyword takes what belongs to it: `ponder` and `infinite` nothing,
/// `searchmoves` every token up to the next keyword or the end, each other
/// keyword one number. A keyword that comes again replaces what it set
/// before. A token that is no keyword where one is due is refused with
/// `UnknownOpt`.
pub open spec fn go_of(toks: Seq<Seq<char>>, acc: GoView) -> Result<GoView, UziErrView>
    decreases toks.len(),
{
    if toks.len() == 0 {
        Ok(acc)
    } else {
        let kw = toks[0];
        let rest = toks.skip(1);
        match go_key_of(kw) {
            None => Err(UziErrView::UnknownOpt),
            Some(GoKey::SearchMoves) => {
                let n = leading_moves(rest) as int;
                proof {
                    lemma_leading_moves(rest);
                }
                go_of(rest.skip(n), GoView { search_moves: Some(rest.take(n)), ..acc })
            },
            Some(GoKey::Ponder) => go_of(rest, GoView { ponder: Some(true), ..acc }),
            Some(GoKey::Infinite) => go_of(rest, GoView { infinite: Some(()), ..acc }),
            Some(key) => match go_arg(key, kw, rest) {
                Err(e) => Err(e),
                Ok(n) => go_of(rest.skip(1), go_set(acc, key, n)),
            },
        }
    }
}

/// The `go` command that the tokens behind the keyword denote: the limits
/// they set, refused with `NothingSetForGo` where they set none.
pub open spec fn go_cmd_of(toks: Seq<Seq<char>>) -> Result<GoView, UziErrView> {
    match go_of(toks, GoView::unset()) {
        Err(e) => Err(e),
        Ok(g) => if g == GoView::unset() {
            Err(UziErrView::NothingSetForGo)
        } else {
            Ok(g)
        },
    }
}

/// The view of a result that carries a `go` command.
pub open spec fn go_result_view(r: Result<Go, UziErr>) -> Result<GoView, UziErrView> {
    match r {
        Ok(g) => Ok(g@),
        Err(e) => Err(e@),
    }
}

/// Reads the number behind the keyword at place `i`.
fn go_number(toks: &Vec<&str>, i: usize, key: GoKey) -> (r: Result<u64, UziErr>)
    requires
        i < toks.len(),
    ensures
        match go_arg(key, toks@[i as int]@, strs(toks@).skip(i + 1)) {
            Ok(n) => r == Ok::<u64, UziErr>(n as u64) && n <= go_max(key),
            Err(e) => r matches Err(x) && x@ == e,
        },
{
    let ghost rest = strs(toks@).skip(i + 1);
    if i + 1 >= toks.len() {
        return Err(UziErr::GoErr);
    }
    assert(rest[0] == toks@[i + 1]@);
    let max: u64 = match key {
        GoKey::WTime | GoKey::BTime | GoKey::MoveTime => u32::MAX as u64,
        GoKey::Nodes => u64::MAX,
        _ => u16::MAX as u64,
    };
    match parse_number(toks[i + 1], max) {
        Some(n) => Ok(n),
        None => {
            let millis = match key {
                GoKey::WTime | GoKey::BTime | GoKey::WInc | GoKey::BInc | GoKey::MoveTime => true,
                _ => false,
            };
            if millis {
                Err(UziErr::BadMillis(String::from_str(toks[i]), String::from_str(toks[i + 1])))
            } else {
                Err(UziErr::BadNumber)
            }
        },
    }
}

/// Hands a keyword's number to the builder.
fn go_store(b: &mut GoBuilder, key: GoKey, n: u64)
    requires
        n <= go_max(key),
    ensures
        final(b)@ == go_set(old(b)@, key, n as nat),
{
    match key {
        GoKey::WTime => {
            b.wtime(n as u32);
        },
        GoKey::BTime => {
            b.btime(n as u32);
        },
        GoKey::WInc => {
            b.winc(n as u16);
        },
        GoKey::BInc => {
            b.binc(n as u16);
        },
        GoKey::MovesToGo => {
            b.moves_to_go(n as u16);
        },
        GoKey::Depth => {
            b.depth(n as u16);
        },
        GoKey::Nodes => {
            b.nodes(n);
        },
        GoKey::Mate => {
            b.mate(n as u16);
        },
        GoKey::MoveTime => {
            b.move_time(n as u32);
        },
        _ => {},
    }
}

/// Hands the moves behind the `searchmoves` at place `i` to the builder and
/// returns the place behind them.
fn go_search_moves(toks: &Vec<&str>, i: usize, b: &mut GoBuilder) -> (j: usize)
    requires
        i < toks.len(),
    ensures
        i < j <= toks.len(),
        j - (i + 1) == leading_moves(strs(toks@).skip(i + 1)),
        final(b)@ == (GoView {
            search_moves: Some(strs(toks@).skip(i + 1).take(j - (i + 1))),
            ..old(b)@
        }),
{
    let ghost rest = strs(toks@).skip(i + 1);
    let mut moves: Vec<String> = Vec::new();
    let mut j: usize = i + 1;
    proof {
        assert(rest.skip(0) =~= rest);
        assert(texts(moves@) =~= rest.take(0));
    }
    while j < toks.len() && go_key(toks[j]).is_none()
        invariant
            i < j <= toks.len(),
            rest == strs(toks@).skip(i + 1),
            texts(moves@) == rest.take(j - (i + 1)),
            leading_moves(rest) == (j - (i + 1)) + leading_moves(rest.skip(j - (i + 1))),
        decreases toks.len() - j,
    {
        let ghost done = texts(moves@);
        proof {
            assert(rest.skip(j - (i + 1))[0] == toks@[j as int]@);
            assert(rest.skip(j - (i + 1)).skip(1) =~= rest.skip(j + 1 - (i + 1)));
        }
        moves.push(String::from_str(toks[j]));
        proof {
            assert(texts(moves@) =~= done.push(toks@[j as int]@));
            assert(done.push(toks@[j as int]@) =~= rest.take(j + 1 - (i + 1)));
        }
        j = j + 1;
    }
    proof {
        if j < toks.len() {
            assert(rest.skip(j - (i + 1))[0] == toks@[j as int]@);
        }
    }
    b.search_moves(moves);
    j
}

/// Reads the keyword at place `i` with what belongs to it and returns the
/// place behind it.
fn go_step(toks: &Vec<&str>, i: usize, b: &mut GoBuilder) -> (r: Result<usize, UziErr>)
    requires
        i < toks.len(),
    ensures
        match r {
            Ok(j) => i < j <= toks.len() && go_of(strs(toks@).skip(i as int), old(b)@) == go_of(
                strs(toks@).skip(j as int),
                final(b)@,
            ),
            Err(e) => go_of(strs(toks@).skip(i as int), old(b)@) == Err::<GoView, UziErrView>(e@),
        },
{
    let ghost here = strs(toks@).skip(i as int);
    proof {
        assert(here[0] == toks@[i as int]@);
        assert(here.skip(1) =~= strs(toks@).skip(i + 1));
    }
    match go_key(toks[i]) {
        None => Err(UziErr::UnknownOpt),
        Some(GoKey::SearchMoves) => {
            let j = go_search_moves(toks, i, b);
            proof {
                assert(here.skip(1).skip(j - (i + 1)) =~= strs(toks@).skip(j as int));
            }
            Ok(j)
        },
        Some(GoKey::Ponder) => {
            b.ponder();
            Ok(i + 1)
        },
        Some(GoKey::Infinite) => {
            b.infinite();
            Ok(i + 1)
        },
        Some(key) => {
            match go_number(toks, i, key) {
                Err(e) => Err(e),
                Ok(n) => {
                    go_store(b, key, n);
                    proof {
                        assert(here.skip(1).skip(1) =~= strs(toks@).skip(i + 2));
                    }
                    Ok(i + 2)
                },
            }
        },
    }
}

/// Reads the tokens behind the keyword `go`.
pub fn parse_go(toks: &Vec<&str>) -> (r: Result<Go, UziErr>)
    ensures
        go_result_view(r) == go_cmd_of(strs(toks@)),
{
    let mut b = GoBuilder::new();
    let mut i: usize = 0;
    proof {
        assert(strs(toks@).skip(0) =~= strs(toks@));
    }
    while i < toks.len()
        invariant
            0 <= i <= toks.len(),
            go_of(strs(toks@), GoView::unset()) == go_of(strs(toks@).skip(i as int), b@),
        decreases toks.len() - i,
    {
        match go_step(toks, i, &mut b) {
            Err(e) => {
                return Err(e);
            },
            Ok(j) => {
                i = j;
            },
        }
    }
    b.build()
}

/// What stands behind `debug`: `on` or `off`, and nothing else.
pub open spec fn debug_of(toks: Seq<Seq<char>>) -> Result<GuiCmdView, UziErrView> {
    if toks.len() > 0 && toks[0] == "on"@ {
        Ok(GuiCmdView::Debug(true))
    } else if toks.len() > 0 && toks[0] == "off"@ {
        Ok(GuiCmdView::Debug(false))
    } else {
        Err(UziErrView::MissingOnOff)
    }
}

/// The command that a line denotes. The first token decides which command
/// it is; a line without a token is refused with `MissingCmd`, a first token
/// that names no command with `UnknownOpt`.
pub open spec fn parse_of(line: Seq<char>) -> Result<GuiCmdView, UziErrView> {
    let spans = spans_from(line, 0);
    let toks = span_texts(line, spans);
    if toks.len() == 0 {
        Err(UziErrView::MissingCmd)
    } else if toks[0] == "uci"@ {
        Ok(GuiCmdView::Uci)
    } else if toks[0] == "debug"@ {
        debug_of(toks.skip(1))
    } else if toks[0] == "isready"@ {
        Ok(GuiCmdView::IsReady)
    } else if toks[0] == "setoption"@ {
        match setopt_of(line, spans.skip(1)) {
            Ok(o) => Ok(GuiCmdView::SetOpt(o)),
            Err(e) => Err(e),
        }
    } else if toks[0] == "ucinewgame"@ {
        Ok(GuiCmdView::NewGame)
    } else if toks[0] == "position"@ {
        match position_of(toks.skip(1)) {
            Ok(p) => Ok(GuiCmdView::Pos(p)),
            Err(e) => Err(e),
        }
    } else if toks[0] == "go"@ {
        match go_cmd_of(toks.skip(1)) {
            Ok(g) => Ok(GuiCmdView::Go(g)),
            Err(e) => Err(e),
        }
    } else if toks[0] == "stop"@ {
        Ok(GuiCmdView::Stop)
    } else if toks[0] == "ponderhit"@ {
        Ok(GuiCmdView::Ponderhit)
    } else {
        Err(UziErrView::UnknownOpt)
    }
}

/// The view of a result that carries a command.
pub open spec fn cmd_result_view(r: Result<GuiCmd, UziErr>) -> Result<GuiCmdView, UziErrView> {
    match r {
        Ok(c) => Ok(c@),
        Err(e) => Err(e@),
    }
}

impl GuiCmd {
    /// Reads one line from the GUI.
    pub fn parse(line: &str) -> (r: Result<GuiCmd, UziErr>)
        ensures
            cmd_result_view(r) == parse_of(line@),
    {
        let mut ts = TokenStream::new(line);
        let ghost spans = ts.rest();
        let ghost toks = span_texts(line@, spans);
        let first = match ts.next_token() {
            None => {
                return Err(UziErr::MissingCmd);
            },
            Some(t) => t,
        };
        proof {
            assert(span_texts(line@, spans.skip(1)) =~= toks.skip(1));
        }
        if same_text(first, "uci") {
            Ok(GuiCmd::Uci)
        } else if same_text(first, "debug") {
            match ts.next_token() {
                None => Err(UziErr::MissingOnOff),
                Some(t) => {
                    assert(toks.skip(1)[0] == t@);
                    if same_text(t, "on") {
                        Ok(GuiCmd::Debug(true))
                    } else if same_text(t, "off") {
                        Ok(GuiCmd::Debug(false))
                    } else {
                        Err(UziErr::MissingOnOff)
                    }
                },
            }
        } else if same_text(first, "isready") {
            Ok(GuiCmd::IsReady)
        } else if same_text(first, "setoption") {
            match parse_setopt(&mut ts) {
                Ok(o) => Ok(GuiCmd::SetOpt(o)),
                Err(e) => Err(e),
            }
        } else if same_text(first, "ucinewgame") {
            Ok(GuiCmd::NewGame)
        } else if same_text(first, "position") {
            let rest = ts.rest_tokens();
            match parse_position(&rest) {
                Ok(p) => Ok(GuiCmd::Pos(p)),
                Err(e) => Err(e),
            }
        } else if same_text(first, "go") {
            let rest = ts.rest_tokens();
            match parse_go(&rest) {
                Ok(g) => Ok(GuiCmd::Go(g)),
                Err(e) => Err(e),
            }
        } else if same_text(first, "stop") {
            Ok(GuiCmd::Stop)
        } else if same_text(first, "ponderhit") {
            Ok(GuiCmd::Ponderhit)
        } else {
            Err(UziErr::UnknownOpt)
        }
    }
}

impl<'a> vstd::std_specs::convert::TryFromSpecImpl<&'a str> for GuiCmd {
    /// The result holds strings, which no specification value can be built
    /// of: the conversion is stated over views, at `try_from` itself.
    open spec fn obeys_try_from_spec() -> bool {
        false
    }

    open spec fn try_from_spec(v: &'a str) -> Result<GuiCmd, UziErr> {
        arbitrary()
    }
}

impl<'a> TryFrom<&'a str> for GuiCmd {
    type Error = UziErr;

    /// Reads one line from the GUI, as `parse` does.
    fn try_from(cmd: &'a str) -> (r: Result<GuiCmd, UziErr>)
        ensures
            cmd_result_view(r) == parse_of(cmd@),
    {
        GuiCmd::parse(cmd)
    }
}

} // verus!
