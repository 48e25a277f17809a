//! Engine options: what the engine declares and what the GUI assigns.

use vstd::prelude::*;
use vstd::string::StringExecFns;
use crate::text::each_after;
use crate::text::lemma_each_after_one_line;
use crate::text::lemma_one_line_concat;
use crate::text::lemma_signed_dec_one_line;
use crate::text::one_line;
use crate::text::push_each_after;
use crate::text::push_signed_dec;
use crate::text::signed_dec;
use crate::text::texts;

verus! {

/// An assignment sent by the GUI: the option's name and, where one is given,
/// the text of its value.
#[derive(Clone, Debug, PartialEq)]
pub struct UciOpt {
    pub id: String,
    pub value: Option<String>,
}

/// The mathematical value of a [`UciOpt`].
pub struct UciOptView {
    pub id: Seq<char>,
    pub value: Option<Seq<char>>,
}

impl View for UciOpt {
    type V = UciOptView;

    open spec fn view(&self) -> UciOptView {
        UciOptView {
            id: self.id@,
            value: match self.value {
                Some(v) => Some(v@),
                None => None,
            },
        }
    }
}

/// The kinds of option that an engine can declare.
#[derive(Clone, Copy, Debug, Eq, Hash, PartialEq)]
pub enum OptKind {
    Check,
    Spin,
    Combo,
    Button,
    Text,
}

impl OptKind {
    /// The protocol's word for the kind.
    pub open spec fn text(&self) -> Seq<char> {
        match *self {
            OptKind::Check => "check"@,
            OptKind::Spin => "spin"@,
            OptKind::Combo => "combo"@,
            OptKind::Button => "button"@,
            OptKind::Text => "string"@,
        }
    }

    /// The protocol's word for the kind.
    pub fn as_str(&self) -> (s: &'static str)
        ensures
            s@ == self.text(),
    {
        match self {
            OptKind::Check => "check",
            OptKind::Spin => "spin",
            OptKind::Combo => "combo",
            OptKind::Button => "button",
            OptKind::Text => "string",
        }
    }

    /// The word of a kind holds no line break.
    pub proof fn lemma_text_one_line(self)
        ensures
            one_line(self.text()),
    {
        reveal_strlit("check");
        reveal_strlit("spin");
        reveal_strlit("combo");
        reveal_strlit("button");
        reveal_strlit("string");
    }
}

/// An option that the engine declares: its name, its kind, and as far as the
/// kind has them a default, bounds and the values to choose from.
#[derive(Clone, Debug, Eq, Hash, PartialEq)]
pub struct HasOpt {
    pub name: String,
    pub kind: OptKind,
    pub default: Option<String>,
    pub min: Option<i64>,
    pub max: Option<i64>,
    pub vars: Vec<String>,
}

impl HasOpt {
    /// Whether every text of the declaration fits on one line.
    pub open spec fn wf(&self) -> bool {
        &&& one_line(self.name@)
        &&& match self.default {
            Some(d) => one_line(d@),
            None => true,
        }
        &&& forall|i: int| 0 <= i < self.vars@.len() ==> one_line(#[trigger] self.vars@[i]@)
    }

    /// What the line says of the default: nothing where there is none.
    pub open spec fn default_seg(&self) -> Seq<char> {
        match self.default {
            Some(d) => " default "@ + d@,
            None => Seq::<char>::empty(),
        }
    }

    /// What the line says of the lower bound: nothing where there is none.
    pub open spec fn min_seg(&self) -> Seq<char> {
        match self.min {
            Some(m) => " min "@ + signed_dec(m as int),
            None => Seq::<char>::empty(),
        }
    }

    /// What the line says of the upper bound: nothing where there is none.
    pub open spec fn max_seg(&self) -> Seq<char> {
        match self.max {
            Some(m) => " max "@ + signed_dec(m as int),
            None => Seq::<char>::empty(),
        }
    }

    /// The declaration's line: `option name`, the name, `type` and the kind,
    /// then what is present of `default`, `min`, `max`, and a `var` for each
    /// value to choose from.
    pub open spec fn text(&self) -> Seq<char> {
        "option name "@ + self.name@ + " type "@ + self.kind.text() + self.default_seg()
            + self.min_seg() + self.max_seg() + each_after(" var "@, texts(self.vars@))
    }

    /// A declaration with a name and a kind and nothing else.
    pub fn new(name: String, kind: OptKind) -> (r: HasOpt)
        ensures
            r.name == name,
            r.kind == kind,
            r.default is None,
            r.min is None,
            r.max is None,
            r.vars@.len() == 0,
    {
        HasOpt { name, kind, default: None, min: None, max: None, vars: Vec::new() }
    }

    /// Appends the declaration's line.
    pub fn push_text(&self, out: &mut String)
        ensures
            final(out)@ == old(out)@ + self.text(),
    {
        let ghost start = out@;
        out.append("option name ");
        out.append(self.name.as_str());
        out.append(" type ");
        out.append(self.kind.as_str());
        let ghost head = "option name "@ + self.name@ + " type "@ + self.kind.text();
        assert(out@ =~= start + head);
        match &self.default {
            Some(d) => {
                out.append(" default ");
                out.append(d.as_str());
                assert(out@ =~= start + (head + (" default "@ + d@)));
            },
            None => {
                assert(out@ =~= start + (head + Seq::<char>::empty()));
            },
        }
        let ghost with_default = head + self.default_seg();
        assert(out@ == start + with_default);
        match self.min {
            Some(m) => {
                out.append(" min ");
                push_signed_dec(out, m);
                assert(out@ =~= start + (with_default + (" min "@ + signed_dec(m as int))));
            },
            None => {
                assert(out@ =~= start + (with_default + Seq::<char>::empty()));
            },
        }
        let ghost with_min = with_default + self.min_seg();
        assert(out@ == start + with_min);
        match self.max {
            Some(m) => {
                out.append(" max ");
                push_signed_dec(out, m);
                assert(out@ =~= start + (with_min + (" max "@ + signed_dec(m as int))));
            },
            None => {
                assert(out@ =~= start + (with_min + Seq::<char>::empty()));
            },
        }
        let ghost with_max = with_min + self.max_seg();
        assert(out@ == start + with_max);
        push_each_after(out, " var ", &self.vars);
        assert(out@ =~= start + (with_max + each_after(" var "@, texts(self.vars@))));
    }

    /// The declaration's line as a string.
    pub fn to_text(&self) -> (s: String)
        ensures
            s@ == self.text(),
    {
        let mut s = String::new();
        self.push_text(&mut s);
        assert(Seq::<char>::empty() + self.text() =~= self.text());
        s
    }

    /// The line of a declaration whose texts fit on one line is one line.
    pub proof fn lemma_text_one_line(self)
        requires
            self.wf(),
        ensures
            one_line(self.text()),
    {
        reveal_strlit("option name ");
        reveal_strlit(" type ");
        reveal_strlit(" default ");
        reveal_strlit(" min ");
        reveal_strlit(" max ");
        reveal_strlit(" var ");
        self.kind.lemma_text_one_line();
        let a = "option name "@ + self.name@;
        lemma_one_line_concat("option name "@, self.name@);
        lemma_one_line_concat(a, " type "@);
        let b = a + " type "@ + self.kind.text();
        lemma_one_line_concat(a + " type "@, self.kind.text());
        let d = self.default_seg();
        if let Some(x) = self.default {
            lemma_one_line_concat(" default "@, x@);
        }
        lemma_one_line_concat(b, d);
        let mn = self.min_seg();
        if let Some(m) = self.min {
            lemma_signed_dec_one_line(m as int);
            lemma_one_line_concat(" min "@, signed_dec(m as int));
        }
        lemma_one_line_concat(b + d, mn);
        let mx = self.max_seg();
        if let Some(m) = self.max {
            lemma_signed_dec_one_line(m as int);
            lemma_one_line_concat(" max "@, signed_dec(m as int));
        }
        lemma_one_line_concat(b + d + mn, mx);
        assert forall|i: int| 0 <= i < texts(self.vars@).len() implies one_line(
            #[trigger] texts(self.vars@)[i],
        ) by {
            assert(texts(self.vars@)[i] == self.vars@[i]@);
        }
        lemma_each_after_one_line(" var "@, texts(self.vars@));
        lemma_one_line_concat(b + d + mn + mx, each_after(" var "@, texts(self.vars@)));
    }
}

} // verus!
