//! A move token: one half-move in coordinate notation, such as `e2e4` or
//! `e7e8q`.

use vstd::prelude::*;
use vstd::string::StringExecFns;
use vstd::string::StrSliceExecFns;
use crate::err::UziErr;
use crate::err::UziErrView;
use crate::text::digit;

verus! {

/// The piece that a pawn turns into.
#[derive(Clone, Copy, Debug, Eq, Hash, PartialEq)]
pub enum Promo {
    Queen,
    Rook,
    Bishop,
    Knight,
}

/// A half-move: the square left, the square reached and, for a pawn that
/// reaches the last rank, the piece it becomes. Files count from 0 (`a`) to 7
/// (`h`), ranks from 1 to 8.
#[derive(Clone, Copy, Debug, Eq, Hash, PartialEq)]
pub struct Pm {
    pub from_file: u8,
    pub from_rank: u8,
    pub to_file: u8,
    pub to_rank: u8,
    pub promo: Option<Promo>,
}

/// The letter of a file; files beyond `h` are written `h`.
pub open spec fn file_char(f: u8) -> char {
    if f == 0 {
        'a'
    } else if f == 1 {
        'b'
    } else if f == 2 {
        'c'
    } else if f == 3 {
        'd'
    } else if f == 4 {
        'e'
    } else if f == 5 {
        'f'
    } else if f == 6 {
        'g'
    } else {
        'h'
    }
}

/// The digit of a rank; ranks beyond 9 are written `9`.
pub open spec fn rank_char(r: u8) -> char {
    digit(r as nat)
}

/// The letter of a promotion piece.
pub open spec fn promo_char(p: Promo) -> char {
    match p {
        Promo::Queen => 'q',
        Promo::Rook => 'r',
        Promo::Bishop => 'b',
        Promo::Knight => 'n',
    }
}

/// Whether a character names a file.
pub open spec fn is_file(c: char) -> bool {
    'a' <= c && c <= 'h'
}

/// Whether a character names a rank.
pub open spec fn is_rank(c: char) -> bool {
    '1' <= c && c <= '8'
}

/// The promotion piece that a character names, if any.
pub open spec fn promo_of(c: char) -> Option<Promo> {
    if c == 'q' {
        Some(Promo::Queen)
    } else if c == 'r' {
        Some(Promo::Rook)
    } else if c == 'b' {
        Some(Promo::Bishop)
    } else if c == 'n' {
        Some(Promo::Knight)
    } else {
        None
    }
}

/// The letter of a file as a string.
fn file_str(f: u8) -> (s: &'static str)
    ensures
        s@ == seq![file_char(f)],
{
    proof {
        reveal_strlit("a");
        reveal_strlit("b");
        reveal_strlit("c");
        reveal_strlit("d");
        reveal_strlit("e");
        reveal_strlit("f");
        reveal_strlit("g");
        reveal_strlit("h");
    }
    let s = if f == 0 {
        "a"
    } else if f == 1 {
        "b"
    } else if f == 2 {
        "c"
    } else if f == 3 {
        "d"
    } else if f == 4 {
        "e"
    } else if f == 5 {
        "f"
    } else if f == 6 {
        "g"
    } else {
        "h"
    };
    assert(s@ =~= seq![file_char(f)]);
    s
}

/// The digit of a rank as a string.
fn rank_str(r: u8) -> (s: &'static str)
    ensures
        s@ == seq![rank_char(r)],
{
    proof {
        reveal_strlit("0");
        reveal_strlit("1");
        reveal_strlit("2");
        reveal_strlit("3");
        reveal_strlit("4");
        reveal_strlit("5");
        reveal_strlit("6");
        reveal_strlit("7");
        reveal_strlit("8");
        reveal_strlit("9");
    }
    let s = if r == 0 {
        "0"
    } else if r == 1 {
        "1"
    } else if r == 2 {
        "2"
    } else if r == 3 {
        "3"
    } else if r == 4 {
        "4"
    } else if r == 5 {
        "5"
    } else if r == 6 {
        "6"
    } else if r == 7 {
        "7"
    } else if r == 8 {
        "8"
    } else {
        "9"
    };
    assert(s@ =~= seq![rank_char(r)]);
    s
}

/// The letter of a promotion piece as a string.
fn promo_str(p: Promo) -> (s: &'static str)
    ensures
        s@ == seq![promo_char(p)],
{
    proof {
        reveal_strlit("q");
        reveal_strlit("r");
        reveal_strlit("b");
        reveal_strlit("n");
    }
    let s = match p {
        Promo::Queen => "q",
        Promo::Rook => "r",
        Promo::Bishop => "b",
        Promo::Knight => "n",
    };
    assert(s@ =~= seq![promo_char(p)]);
    s
}

impl Pm {
    /// Whether the squares are on the board.
    pub open spec fn wf(&self) -> bool {
        &&& self.from_file < 8
        &&& self.to_file < 8
        &&& 1 <= self.from_rank <= 8
        &&& 1 <= self.to_rank <= 8
    }

    /// The token of the move: four characters, or five with a promotion.
    pub open spec fn text(&self) -> Seq<char> {
        seq![
            file_char(self.from_file),
            rank_char(self.from_rank),
            file_char(self.to_file),
            rank_char(self.to_rank),
        ] + match self.promo {
            Some(p) => seq![promo_char(p)],
            None => Seq::<char>::empty(),
        }
    }

    /// The move that a token denotes, if it denotes one.
    pub open spec fn of_text(s: Seq<char>) -> Option<Pm> {
        if (s.len() == 4 || (s.len() == 5 && promo_of(s[4]) is Some)) && is_file(s[0]) && is_rank(
            s[1],
        ) && is_file(s[2]) && is_rank(s[3]) {
            Some(
                Pm {
                    from_file: (s[0] as u32 - 'a' as u32) as u8,
                    from_rank: (s[1] as u32 - '0' as u32) as u8,
                    to_file: (s[2] as u32 - 'a' as u32) as u8,
                    to_rank: (s[3] as u32 - '0' as u32) as u8,
                    promo: if s.len() == 5 {
                        promo_of(s[4])
                    } else {
                        None
                    },
                },
            )
        } else {
            None
        }
    }

    /// Reads a move token. Anything that is not a move in coordinate notation
    /// is rejected with `What`.
    pub fn from_text(s: &str) -> (r: Result<Pm, UziErr>)
        ensures
            match Pm::of_text(s@) {
                Some(pm) => r == Ok::<Pm, UziErr>(pm) && pm.wf(),
                None => r matches Err(e) && e@ == UziErrView::What,
            },
    {
        let n: usize = s.unicode_len();
        if n != 4 && n != 5 {
            return Err(UziErr::What);
        }
        let c0: char = s.get_char(0);
        let c1: char = s.get_char(1);
        let c2: char = s.get_char(2);
        let c3: char = s.get_char(3);
        if !('a' <= c0 && c0 <= 'h' && '1' <= c1 && c1 <= '8' && 'a' <= c2 && c2 <= 'h' && '1'
            <= c3 && c3 <= '8') {
            return Err(UziErr::What);
        }
        let mut promo: Option<Promo> = None;
        if n == 5 {
            let c4: char = s.get_char(4);
            if c4 == 'q' {
                promo = Some(Promo::Queen);
            } else if c4 == 'r' {
                promo = Some(Promo::Rook);
            } else if c4 == 'b' {
                promo = Some(Promo::Bishop);
            } else if c4 == 'n' {
                promo = Some(Promo::Knight);
            } else {
                return Err(UziErr::What);
            }
        }
        Ok(
            Pm {
                from_file: (c0 as u32 - 'a' as u32) as u8,
                from_rank: (c1 as u32 - '0' as u32) as u8,
                to_file: (c2 as u32 - 'a' as u32) as u8,
                to_rank: (c3 as u32 - '0' as u32) as u8,
                promo,
            },
        )
    }

    /// Appends the token of the move.
    pub fn push_text(&self, out: &mut String)
        ensures
            final(out)@ == old(out)@ + self.text(),
    {
        out.append(file_str(self.from_file));
        out.append(rank_str(self.from_rank));
        out.append(file_str(self.to_file));
        out.append(rank_str(self.to_rank));
        match self.promo {
            Some(p) => {
                out.append(promo_str(p));
            },
            None => {},
        }
        assert(final(out)@ =~= old(out)@ + self.text());
    }

    /// The token of the move as a string.
    pub fn to_text(&self) -> (s: String)
        ensures
            s@ == self.text(),
    {
        let mut s = String::new();
        self.push_text(&mut s);
        assert(Seq::<char>::empty() + self.text() =~= self.text());
        s
    }

    /// Reading the token of a move on the board gives the move back.
    pub proof fn lemma_text_round_trip(self)
        requires
            self.wf(),
        ensures
            Pm::of_text(self.text()) == Some(self),
    {
        let s = self.text();
        assert(s.len() == 4 || s.len() == 5);
        assert(s[0] == file_char(self.from_file));
        assert(s[1] == rank_char(self.from_rank));
        assert(s[2] == file_char(self.to_file));
        assert(s[3] == rank_char(self.to_rank));
        match self.promo {
            Some(p) => {
                assert(s[4] == promo_char(p));
            },
            None => {},
        }
    }

    /// Writing the move that a token denotes gives the token back.
    pub proof fn lemma_of_text_round_trip(s: Seq<char>)
        requires
            Pm::of_text(s) is Some,
        ensures
            Pm::of_text(s)->Some_0.text() == s,
            Pm::of_text(s)->Some_0.wf(),
    {
        let pm = Pm::of_text(s)->Some_0;
        assert(pm.text() =~= s);
    }

    /// The token of a move is four or five characters long and holds no line
    /// break.
    pub proof fn lemma_text_plain(self)
        ensures
            crate::text::one_line(self.text()),
            4 <= self.text().len() <= 5,
    {
    }
}

impl std::str::FromStr for Pm {
    type Err = UziErr;

    /// Reads a move token, as `from_text` does.
    fn from_str(s: &str) -> (r: Result<Pm, UziErr>)
        ensures
            match Pm::of_text(s@) {
                Some(pm) => r == Ok::<Pm, UziErr>(pm) && pm.wf(),
                None => r matches Err(e) && e@ == UziErrView::What,
            },
    {
        Pm::from_text(s)
    }
}

} // verus!
