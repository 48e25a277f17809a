//! The token stream: a line cut at white space, token by token, with the rest
//! of the line available verbatim at any point.

use vstd::prelude::*;
use vstd::string::StrSliceExecFns;
use crate::text::is_space;
use crate::text::space_char;

verus! {

/// The first place at or after `i` that holds no white space, or the end of
/// the line.
pub open spec fn skip_spaces(s: Seq<char>, i: int) -> int
    decreases s.len() - i,
{
    if 0 <= i < s.len() && is_space(s[i]) {
        skip_spaces(s, i + 1)
    } else {
        i
    }
}

/// The first place at or after `i` that holds white space, or the end of the
/// line.
pub open spec fn token_end(s: Seq<char>, i: int) -> int
    decreases s.len() - i,
{
    if 0 <= i < s.len() && !is_space(s[i]) {
        token_end(s, i + 1)
    } else {
        i
    }
}

/// Where `skip_spaces` arrives.
pub proof fn lemma_skip_spaces(s: Seq<char>, i: int)
    requires
        0 <= i <= s.len(),
    ensures
        i <= skip_spaces(s, i) <= s.len(),
        skip_spaces(s, i) < s.len() ==> !is_space(s[skip_spaces(s, i)]),
        forall|k: int| i <= k < skip_spaces(s, i) ==> is_space(#[trigger] s[k]),
    decreases s.len() - i,
{
    if i < s.len() && is_space(s[i]) {
        lemma_skip_spaces(s, i + 1);
    }
}

/// Where `token_end` arrives.
pub proof fn lemma_token_end(s: Seq<char>, i: int)
    requires
        0 <= i <= s.len(),
    ensures
        i <= token_end(s, i) <= s.len(),
        i < s.len() && !is_space(s[i]) ==> i < token_end(s, i),
        token_end(s, i) < s.len() ==> is_space(s[token_end(s, i)]),
        forall|k: int| i <= k < token_end(s, i) ==> !is_space(#[trigger] s[k]),
    decreases s.len() - i,
{
    if i < s.len() && !is_space(s[i]) {
        lemma_token_end(s, i + 1);
    }
}

/// The tokens that begin at or after `i`, each as the place where it begins
/// and the place behind its end.
pub open spec fn spans_from(s: Seq<char>, i: int) -> Seq<(int, int)>
    decreases s.len() - i,
{
    let a = skip_spaces(s, i);
    if 0 <= i <= s.len() && a < s.len() {
        let b = token_end(s, a);
        proof {
            lemma_skip_spaces(s, i);
            lemma_token_end(s, a);
        }
        seq![(a, b)].add(spans_from(s, b))
    } else {
        Seq::<(int, int)>::empty()
    }
}

/// The text of each span of a line.
pub open spec fn span_texts(s: Seq<char>, spans: Seq<(int, int)>) -> Seq<Seq<char>> {
    spans.map_values(|sp: (int, int)| s.subrange(sp.0, sp.1))
}

/// The tokens of a line: its maximal runs of characters that are no white
/// space, in order.
pub open spec fn tokens(s: Seq<char>) -> Seq<Seq<char>> {
    span_texts(s, spans_from(s, 0))
}

/// The views of a list of string slices, in order.
pub open spec fn strs(v: Seq<&str>) -> Seq<Seq<char>> {
    v.map_values(|t: &str| t@)
}

/// Every span from a place on lies within the line, behind that place, is
/// not empty and holds no white space; the spans behind it are those that
/// begin at its end.
pub proof fn lemma_spans_within(s: Seq<char>, i: int, k: int)
    requires
        0 <= i <= s.len(),
        0 <= k < spans_from(s, i).len(),
    ensures
        i <= spans_from(s, i)[k].0 < spans_from(s, i)[k].1 <= s.len(),
        spans_from(s, spans_from(s, i)[k].1) == spans_from(s, i).skip(k + 1),
        forall|j: int|
            spans_from(s, i)[k].0 <= j < spans_from(s, i)[k].1 ==> !is_space(#[trigger] s[j]),
    decreases k,
{
    let a = skip_spaces(s, i);
    lemma_skip_spaces(s, i);
    lemma_token_end(s, a);
    let b = token_end(s, a);
    let rest = spans_from(s, b);
    assert(spans_from(s, i) == seq![(a, b)].add(rest));
    if k == 0 {
        assert(spans_from(s, i).skip(1) =~= rest);
    } else {
        lemma_spans_within(s, b, k - 1);
        assert(spans_from(s, i)[k] == rest[k - 1]);
        assert(spans_from(s, i).skip(k + 1) =~= rest.skip(k));
    }
}

/// A cursor over one line. Tokens are handed out once, from left to right.
pub struct TokenStream<'a> {
    line: &'a str,
    len: usize,
    pos: usize,
}

impl<'a> TokenStream<'a> {
    /// The line that the stream reads.
    pub closed spec fn line(&self) -> Seq<char> {
        self.line@
    }

    /// The place up to which the line is consumed.
    pub closed spec fn pos(&self) -> int {
        self.pos as int
    }

    /// Whether the cursor stands within its line.
    pub closed spec fn wf(&self) -> bool {
        self.len == self.line@.len() && self.pos <= self.len
    }

    /// The spans of the tokens not yet handed out.
    pub open spec fn rest(&self) -> Seq<(int, int)> {
        spans_from(self.line(), self.pos())
    }

    /// The cursor of a well-formed stream stands within its line.
    pub proof fn lemma_wf(&self)
        requires
            self.wf(),
        ensures
            0 <= self.pos() <= self.line().len(),
    {
    }

    /// A stream at the beginning of `line`.
    pub fn new(line: &'a str) -> (ts: Self)
        ensures
            ts.wf(),
            ts.line() == line@,
            ts.pos() == 0,
    {
        TokenStream { line, len: line.unicode_len(), pos: 0 }
    }

    /// The place where the next token begins, or the end of the line.
    fn skip(&self) -> (a: usize)
        requires
            self.wf(),
        ensures
            a == skip_spaces(self.line(), self.pos()),
            a <= self.line().len(),
    {
        let mut a: usize = self.pos;
        while a < self.len && space_char(self.line.get_char(a))
            invariant
                self.wf(),
                self.pos <= a <= self.len,
                skip_spaces(self.line@, self.pos as int) == skip_spaces(self.line@, a as int),
            decreases self.len - a,
        {
            a = a + 1;
        }
        a
    }

    /// Consumes the next token and returns the place where it begins and the
    /// place behind its end; `None`, with nothing consumed, when only white
    /// space is left.
    pub fn next_span(&mut self) -> (sp: Option<(usize, usize)>)
        requires
            old(self).wf(),
        ensures
            final(self).wf(),
            final(self).line() == old(self).line(),
            match sp {
                None => old(self).rest().len() == 0 && final(self).pos() == old(self).pos(),
                Some((a, b)) => old(self).rest().len() > 0 && old(self).rest()[0] == (
                    a as int,
                    b as int,
                ) && a < b <= old(self).line().len() && final(self).pos() == b
                    && final(self).rest() == old(self).rest().skip(1),
            },
    {
        let a: usize = self.skip();
        if a >= self.len {
            return None;
        }
        let mut b: usize = a;
        while b < self.len && !space_char(self.line.get_char(b))
            invariant
                self.wf(),
                a <= b <= self.len,
                token_end(self.line@, a as int) == token_end(self.line@, b as int),
            decreases self.len - b,
        {
            b = b + 1;
        }
        proof {
            lemma_spans_within(self.line@, self.pos as int, 0);
        }
        self.pos = b;
        Some((a, b))
    }

    /// The text between two places of the line.
    pub fn slice(&self, a: usize, b: usize) -> (t: &'a str)
        requires
            self.wf(),
            a <= b <= self.line().len(),
        ensures
            t@ == self.line().subrange(a as int, b as int),
    {
        self.line.substring_char(a, b)
    }

    /// Consumes the next token and returns its text; `None`, with nothing
    /// consumed, when only white space is left.
    pub fn next_token(&mut self) -> (tok: Option<&'a str>)
        requires
            old(self).wf(),
        ensures
            final(self).wf(),
            final(self).line() == old(self).line(),
            match tok {
                None => old(self).rest().len() == 0 && final(self).pos() == old(self).pos(),
                Some(t) => old(self).rest().len() > 0 && t@ == span_texts(
                    old(self).line(),
                    old(self).rest(),
                )[0] && final(self).pos() == old(self).rest()[0].1 && final(self).rest() == old(
                    self,
                ).rest().skip(1),
            },
    {
        match self.next_span() {
            None => None,
            Some((a, b)) => Some(self.slice(a, b)),
        }
    }

    /// The unconsumed rest of the line as it stands, from the beginning of the
    /// next token to the end of the line; the spacing between its words is
    /// kept. It is empty when only white space is left. Nothing is consumed.
    pub fn remainder(&self) -> (r: &'a str)
        requires
            self.wf(),
        ensures
            r@ == self.line().subrange(
                skip_spaces(self.line(), self.pos()),
                self.line().len() as int,
            ),
    {
        let a: usize = self.skip();
        self.line.substring_char(a, self.len)
    }

    /// Consumes every token that is left and returns them in order.
    pub fn rest_tokens(&mut self) -> (toks: Vec<&'a str>)
        requires
            old(self).wf(),
        ensures
            final(self).wf(),
            final(self).line() == old(self).line(),
            final(self).rest().len() == 0,
            strs(toks@) == span_texts(old(self).line(), old(self).rest()),
    {
        let mut toks: Vec<&'a str> = Vec::new();
        let ghost all = span_texts(self.line(), self.rest());
        assert(strs(toks@) + span_texts(self.line(), self.rest()) =~= all);
        loop
            invariant
                self.wf(),
                self.line() == old(self).line(),
                all == span_texts(old(self).line(), old(self).rest()),
                strs(toks@) + span_texts(self.line(), self.rest()) == all,
            ensures
                self.wf(),
                self.line() == old(self).line(),
                self.rest().len() == 0,
                strs(toks@) == all,
            decreases self.line().len() - self.pos(),
        {
            let ghost before = self.rest();
            let ghost done = strs(toks@);
            proof {
                if before.len() > 0 {
                    lemma_spans_within(self.line(), self.pos(), 0);
                }
            }
            match self.next_token() {
                None => {
                    assert(strs(toks@) =~= all);
                    break ;
                },
                Some(t) => {
                    toks.push(t);
                    assert(strs(toks@) =~= done.push(t@));
                    assert(span_texts(self.line(), before) =~= seq![t@] + span_texts(
                        self.line(),
                        before.skip(1),
                    ));
                    assert(strs(toks@) + span_texts(self.line(), self.rest()) =~= all);
                },
            }
        }
        toks
    }
}

} // verus!
