//! Commands from the engine to the GUI, and their canonical lines.

use vstd::prelude::*;
use vstd::string::StringExecFns;
use crate::opt::HasOpt;
use crate::pm::Pm;
use crate::text::dec;
use crate::text::each_after;
use crate::text::lemma_dec_one_line;
use crate::text::lemma_each_after_one_line;
use crate::text::lemma_one_line_concat;
use crate::text::lemma_signed_dec_one_line;
use crate::text::one_line;
use crate::text::push_dec;
use crate::text::push_signed_dec;
use crate::text::signed_dec;

verus! {

/// The tokens of a list of moves, in order.
pub open spec fn pm_texts(v: Seq<Pm>) -> Seq<Seq<char>> {
    v.map_values(|p: Pm| p.text())
}

/// A list of moves as it stands in a line: each move behind one space.
pub open spec fn line_of(moves: Seq<Pm>) -> Seq<char> {
    each_after(" "@, pm_texts(moves))
}

/// A list of moves holds no line break.
pub proof fn lemma_line_of_one_line(moves: Seq<Pm>)
    ensures
        one_line(line_of(moves)),
{
    reveal_strlit(" ");
    assert forall|i: int| 0 <= i < pm_texts(moves).len() implies one_line(
        #[trigger] pm_texts(moves)[i],
    ) by {
        moves[i].lemma_text_plain();
    }
    lemma_each_after_one_line(" "@, pm_texts(moves));
}

/// Appends each move behind one space.
pub fn push_line(out: &mut String, moves: &Vec<Pm>)
    ensures
        final(out)@ == old(out)@ + line_of(moves@),
{
    let mut i: usize = 0;
    assert(pm_texts(moves@.take(0)) =~= Seq::<Seq<char>>::empty());
    assert(out@ =~= old(out)@ + line_of(moves@.take(0)));
    while i < moves.len()
        invariant
            0 <= i <= moves.len(),
            out@ == old(out)@ + line_of(moves@.take(i as int)),
        decreases moves.len() - i,
    {
        let ghost before = pm_texts(moves@.take(i as int));
        let ghost after = pm_texts(moves@.take(i + 1));
        out.append(" ");
        moves[i].push_text(out);
        proof {
            assert(after.drop_last() =~= before);
            assert(after.last() == moves@[i as int].text());
            assert(out@ =~= old(out)@ + line_of(moves@.take(i + 1)));
        }
        i = i + 1;
    }
    assert(moves@.take(i as int) =~= moves@);
}

/// A keyword with the number behind it; nothing where the number is absent.
pub open spec fn seg_u16(kw: Seq<char>, v: Option<u16>) -> Seq<char> {
    match v {
        Some(n) => kw + dec(n as nat),
        None => Seq::<char>::empty(),
    }
}

/// A keyword with the number behind it; nothing where the number is absent.
pub open spec fn seg_u32(kw: Seq<char>, v: Option<u32>) -> Seq<char> {
    match v {
        Some(n) => kw + dec(n as nat),
        None => Seq::<char>::empty(),
    }
}

/// A keyword with the number behind it; nothing where the number is absent.
pub open spec fn seg_u128(kw: Seq<char>, v: Option<u128>) -> Seq<char> {
    match v {
        Some(n) => kw + dec(n as nat),
        None => Seq::<char>::empty(),
    }
}

/// Appends a keyword and the number behind it, if there is one.
fn push_seg_u128(out: &mut String, kw: &str, v: Option<u128>)
    ensures
        final(out)@ == old(out)@ + seg_u128(kw@, v),
{
    match v {
        Some(n) => {
            out.append(kw);
            push_dec(out, n);
            assert(out@ =~= old(out)@ + seg_u128(kw@, v));
        },
        None => {
            assert(out@ =~= old(out)@ + seg_u128(kw@, v));
        },
    }
}

/// Appends a keyword and the number behind it, if there is one.
fn push_seg_u32(out: &mut String, kw: &str, v: Option<u32>)
    ensures
        final(out)@ == old(out)@ + seg_u32(kw@, v),
{
    match v {
        Some(n) => {
            out.append(kw);
            push_dec(out, n as u128);
            assert(out@ =~= old(out)@ + seg_u32(kw@, v));
        },
        None => {
            assert(out@ =~= old(out)@ + seg_u32(kw@, v));
        },
    }
}

/// Appends a keyword and the number behind it, if there is one.
fn push_seg_u16(out: &mut String, kw: &str, v: Option<u16>)
    ensures
        final(out)@ == old(out)@ + seg_u16(kw@, v),
{
    match v {
        Some(n) => {
            out.append(kw);
            push_dec(out, n as u128);
            assert(out@ =~= old(out)@ + seg_u16(kw@, v));
        },
        None => {
            assert(out@ =~= old(out)@ + seg_u16(kw@, v));
        },
    }
}

/// Says whether a score is a lower or an upper bound.
#[derive(Clone, Copy, Debug, Eq, Hash, PartialEq)]
pub enum ScoreBound {
    Lower,
    Upper,
}

impl ScoreBound {
    /// The protocol's keyword for the bound.
    pub open spec fn text(&self) -> Seq<char> {
        match *self {
            ScoreBound::Lower => "lowerbound"@,
            ScoreBound::Upper => "upperbound"@,
        }
    }

    /// The protocol's keyword for the bound.
    pub fn as_str(&self) -> (s: &'static str)
        ensures
            s@ == self.text(),
    {
        match self {
            ScoreBound::Lower => "lowerbound",
            ScoreBound::Upper => "upperbound",
        }
    }
}

/// The engine's evaluation: centipawns from its own point of view, and where
/// known the distance to mate and whether the value is only a bound.
#[derive(Clone, Copy, Debug, Eq, Hash, PartialEq)]
pub struct Score {
    pub cp: i32,
    pub mate: Option<i16>,
    pub bound: Option<ScoreBound>,
}

impl Score {
    /// What the line says of the mate distance.
    pub open spec fn mate_seg(&self) -> Seq<char> {
        match self.mate {
            Some(m) => " "@ + signed_dec(m as int),
            None => Seq::<char>::empty(),
        }
    }

    /// What the line says of the bound.
    pub open spec fn bound_seg(&self) -> Seq<char> {
        match self.bound {
            Some(b) => " "@ + b.text(),
            None => Seq::<char>::empty(),
        }
    }

    /// `score cp`, the centipawns, then the mate distance and the bound's
    /// keyword as far as they are present.
    pub open spec fn text(&self) -> Seq<char> {
        "score cp "@ + signed_dec(self.cp as int) + self.mate_seg() + self.bound_seg()
    }

    /// A score of its three parts.
    pub fn new(cp: i32, mate: Option<i16>, bound: Option<ScoreBound>) -> (r: Score)
        ensures
            r == (Score { cp, mate, bound }),
    {
        Score { cp, mate, bound }
    }

    /// Appends the score's text.
    pub fn push_text(&self, out: &mut String)
        ensures
            final(out)@ == old(out)@ + self.text(),
    {
        let ghost start = out@;
        out.append("score cp ");
        push_signed_dec(out, self.cp as i64);
        let ghost head = "score cp "@ + signed_dec(self.cp as int);
        assert(out@ =~= start + head);
        match self.mate {
            Some(m) => {
                out.append(" ");
                push_signed_dec(out, m as i64);
            },
            None => {},
        }
        assert(out@ =~= start + (head + self.mate_seg()));
        match self.bound {
            Some(b) => {
                out.append(" ");
                out.append(b.as_str());
            },
            None => {},
        }
        assert(out@ =~= start + (head + self.mate_seg() + self.bound_seg()));
    }

    /// The text of the score as a string.
    pub fn to_text(&self) -> (s: String)
        ensures
            s@ == self.text(),
    {
        let mut s = String::new();
        self.push_text(&mut s);
        assert(Seq::<char>::empty() + self.text() =~= self.text());
        s
    }

    /// A score's text holds no line break.
    pub proof fn lemma_text_one_line(self)
        ensures
            one_line(self.text()),
    {
        reveal_strlit("score cp ");
        reveal_strlit(" ");
        reveal_strlit("lowerbound");
        reveal_strlit("upperbound");
        lemma_signed_dec_one_line(self.cp as int);
        lemma_one_line_concat("score cp "@, signed_dec(self.cp as int));
        if let Some(m) = self.mate {
            lemma_signed_dec_one_line(m as int);
            lemma_one_line_concat(" "@, signed_dec(m as int));
        }
        if let Some(b) = self.bound {
            lemma_one_line_concat(" "@, b.text());
        }
        lemma_one_line_concat("score cp "@ + signed_dec(self.cp as int), self.mate_seg());
        lemma_one_line_concat(
            "score cp "@ + signed_dec(self.cp as int) + self.mate_seg(),
            self.bound_seg(),
        );
    }
}

/// One of several best lines: its rank, counted from 1, and its moves.
#[derive(Clone, Debug, Eq, Hash, PartialEq)]
pub struct MultiPv {
    pub rank: u64,
    pub moves: Vec<Pm>,
}

impl MultiPv {
    /// `multipv`, the rank, and the moves.
    pub open spec fn text(&self) -> Seq<char> {
        "multipv "@ + dec(self.rank as nat) + line_of(self.moves@)
    }

    /// A line of moves with its rank.
    pub fn new(rank: u64, moves: Vec<Pm>) -> (r: MultiPv)
        ensures
            r.rank == rank,
            r.moves == moves,
    {
        MultiPv { rank, moves }
    }

    /// Appends the text of the ranked line.
    pub fn push_text(&self, out: &mut String)
        ensures
            final(out)@ == old(out)@ + self.text(),
    {
        out.append("multipv ");
        push_dec(out, self.rank as u128);
        push_line(out, &self.moves);
        assert(out@ =~= old(out)@ + self.text());
    }

    /// The text of the ranked line as a string.
    pub fn to_text(&self) -> (s: String)
        ensures
            s@ == self.text(),
    {
        let mut s = String::new();
        self.push_text(&mut s);
        assert(Seq::<char>::empty() + self.text() =~= self.text());
        s
    }

    /// The text of a ranked line holds no line break.
    pub proof fn lemma_text_one_line(self)
        ensures
            one_line(self.text()),
    {
        reveal_strlit("multipv ");
        lemma_dec_one_line(self.rank as nat);
        lemma_line_of_one_line(self.moves@);
        lemma_one_line_concat("multipv "@, dec(self.rank as nat));
        lemma_one_line_concat("multipv "@ + dec(self.rank as nat), line_of(self.moves@));
    }
}

/// The line that the engine is calculating, and on which CPU where more than
/// one is in use.
#[derive(Clone, Debug, Eq, Hash, PartialEq)]
pub struct CurrLine {
    pub cpu_id: Option<u16>,
    pub line: Vec<Pm>,
}

impl CurrLine {
    /// `currline`, the CPU's number where it is given, and the moves.
    pub open spec fn text(&self) -> Seq<char> {
        "currline"@ + seg_u16(" "@, self.cpu_id) + line_of(self.line@)
    }

    /// The line calculated on the given CPU, or on the only one.
    pub fn new(cpu_id: Option<u16>, line: Vec<Pm>) -> (r: CurrLine)
        ensures
            r.cpu_id == cpu_id,
            r.line == line,
    {
        CurrLine { cpu_id, line }
    }

    /// Appends the text of the current line.
    pub fn push_text(&self, out: &mut String)
        ensures
            final(out)@ == old(out)@ + self.text(),
    {
        out.append("currline");
        push_seg_u16(out, " ", self.cpu_id);
        push_line(out, &self.line);
        assert(out@ =~= old(out)@ + self.text());
    }

    /// The text of the current line as a string.
    pub fn to_text(&self) -> (s: String)
        ensures
            s@ == self.text(),
    {
        let mut s = String::new();
        self.push_text(&mut s);
        assert(Seq::<char>::empty() + self.text() =~= self.text());
        s
    }

    /// The text of a current line holds no line break.
    pub proof fn lemma_text_one_line(self)
        ensures
            one_line(self.text()),
    {
        reveal_strlit("currline");
        reveal_strlit(" ");
        if let Some(n) = self.cpu_id {
            lemma_dec_one_line(n as nat);
            lemma_one_line_concat(" "@, dec(n as nat));
        }
        lemma_line_of_one_line(self.line@);
        lemma_one_line_concat("currline"@, seg_u16(" "@, self.cpu_id));
        lemma_one_line_concat("currline"@ + seg_u16(" "@, self.cpu_id), line_of(self.line@));
    }
}

/// A move and the line of moves that refutes it.
#[derive(Clone, Debug, Eq, Hash, PartialEq)]
pub struct Refutation {
    pub refuted_move: Pm,
    pub moves: Vec<Pm>,
}

impl Refutation {
    /// `refutation`, the refuted move, and the refuting moves.
    pub open spec fn text(&self) -> Seq<char> {
        "refutation "@ + self.refuted_move.text() + line_of(self.moves@)
    }

    /// A move with the line that refutes it.
    pub fn new(refuted_move: Pm, moves: Vec<Pm>) -> (r: Refutation)
        ensures
            r.refuted_move == refuted_move,
            r.moves == moves,
    {
        Refutation { refuted_move, moves }
    }

    /// Appends the text of the refutation.
    pub fn push_text(&self, out: &mut String)
        ensures
            final(out)@ == old(out)@ + self.text(),
    {
        out.append("refutation ");
        self.refuted_move.push_text(out);
        push_line(out, &self.moves);
        assert(out@ =~= old(out)@ + self.text());
    }

    /// The text of the refutation as a string.
    pub fn to_text(&self) -> (s: String)
        ensures
            s@ == self.text(),
    {
        let mut s = String::new();
        self.push_text(&mut s);
        assert(Seq::<char>::empty() + self.text() =~= self.text());
        s
    }

    /// The text of a refutation holds no line break.
    pub proof fn lemma_text_one_line(self)
        ensures
            one_line(self.text()),
    {
        reveal_strlit("refutation ");
        self.refuted_move.lemma_text_plain();
        lemma_line_of_one_line(self.moves@);
        lemma_one_line_concat("refutation "@, self.refuted_move.text());
        lemma_one_line_concat("refutation "@ + self.refuted_move.text(), line_of(self.moves@));
    }
}

/// What the engine reports of its search. Every field is optional; a
/// selective depth is only ever reported together with a depth.
#[derive(Clone, Debug, Eq, Hash, PartialEq)]
pub struct Info {
    /// Search depth in plies.
    pub depth: Option<u16>,
    /// Selective search depth in plies.
    pub sel_depth: Option<u16>,
    /// Nodes searched.
    pub node: Option<u32>,
    /// Time searched, in milliseconds.
    pub time: Option<u128>,
    /// The best line found.
    pub pv: Option<Vec<Pm>>,
    /// One of several best lines, with its rank.
    pub multi_pv: Option<MultiPv>,
    /// The evaluation, from the engine's point of view.
    pub score: Option<Score>,
    /// The move being searched.
    pub curr_move: Option<Pm>,
    /// How full the hash table is, in permille.
    pub hash_full: Option<u16>,
    /// Nodes searched per second.
    pub nodes_per_sec: Option<u32>,
    /// Positions found in the endgame tablebases.
    pub tb_hits: Option<u32>,
    /// Positions found in the shredder endgame databases.
    pub sb_hits: Option<u32>,
    /// The engine's CPU usage, in permille.
    pub cpu_load: Option<u16>,
    /// Free text to display.
    pub string: Option<String>,
    /// A move and the line that refutes it.
    pub refutation: Option<Refutation>,
    /// The line being calculated.
    pub curr_line: Option<CurrLine>,
}

impl Info {
    /// The number of fields, and so of places in the line.
    pub open spec fn fields() -> int {
        16
    }

    /// Whether a selective depth comes with a depth, and the free text fits on
    /// one line.
    pub open spec fn wf(&self) -> bool {
        &&& self.sel_depth is Some ==> self.depth is Some
        &&& match self.string {
            Some(t) => one_line(t@),
            None => true,
        }
    }

    /// What the line says of the best line found.
    pub open spec fn pv_seg(&self) -> Seq<char> {
        match self.pv {
            Some(pv) => " pv"@ + line_of(pv@),
            None => Seq::<char>::empty(),
        }
    }

    /// What the line says of the ranked line.
    pub open spec fn multi_pv_seg(&self) -> Seq<char> {
        match self.multi_pv {
            Some(m) => " "@ + m.text(),
            None => Seq::<char>::empty(),
        }
    }

    /// What the line says of the score.
    pub open spec fn score_seg(&self) -> Seq<char> {
        match self.score {
            Some(sc) => " "@ + sc.text(),
            None => Seq::<char>::empty(),
        }
    }

    /// What the line says of the move being searched.
    pub open spec fn curr_move_seg(&self) -> Seq<char> {
        match self.curr_move {
            Some(pm) => " currmove "@ + pm.text(),
            None => Seq::<char>::empty(),
        }
    }

    /// What the line says of the free text.
    pub open spec fn string_seg(&self) -> Seq<char> {
        match self.string {
            Some(t) => " string "@ + t@,
            None => Seq::<char>::empty(),
        }
    }

    /// What the line says of the refutation.
    pub open spec fn refutation_seg(&self) -> Seq<char> {
        match self.refutation {
            Some(r) => " "@ + r.text(),
            None => Seq::<char>::empty(),
        }
    }

    /// What the line says of the line being calculated.
    pub open spec fn curr_line_seg(&self) -> Seq<char> {
        match self.curr_line {
            Some(c) => " "@ + c.text(),
            None => Seq::<char>::empty(),
        }
    }

    /// The text that the field at place `i` of the canonical order adds to the
    /// line: empty where the field is absent, else a space, its keyword and
    /// its value. The order is depth, seldepth, node, time, pv, multipv,
    /// score, currmove, hashfull, nps, tbhits, sbhits, cpuload, string,
    /// refutation, currline.
    pub open spec fn segment(&self, i: int) -> Seq<char> {
        if i == 0 {
            seg_u16(" depth "@, self.depth)
        } else if i == 1 {
            seg_u16(" seldepth "@, self.sel_depth)
        } else if i == 2 {
            seg_u32(" node "@, self.node)
        } else if i == 3 {
            seg_u128(" time "@, self.time)
        } else if i == 4 {
            self.pv_seg()
        } else if i == 5 {
            self.multi_pv_seg()
        } else if i == 6 {
            self.score_seg()
        } else if i == 7 {
            self.curr_move_seg()
        } else if i == 8 {
            seg_u16(" hashfull "@, self.hash_full)
        } else if i == 9 {
            seg_u32(" nps "@, self.nodes_per_sec)
        } else if i == 10 {
            seg_u32(" tbhits "@, self.tb_hits)
        } else if i == 11 {
            seg_u32(" sbhits "@, self.sb_hits)
        } else if i == 12 {
            seg_u16(" cpuload "@, self.cpu_load)
        } else if i == 13 {
            self.string_seg()
        } else if i == 14 {
            self.refutation_seg()
        } else if i == 15 {
            self.curr_line_seg()
        } else {
            Seq::<char>::empty()
        }
    }

    /// The line as far as the first `n` places: `info`, then their segments in
    /// order.
    pub open spec fn text_upto(&self, n: int) -> Seq<char>
        decreases n,
    {
        if n <= 0 {
            "info"@
        } else {
            self.text_upto(n - 1) + self.segment(n - 1)
        }
    }

    /// The canonical line.
    pub open spec fn text(&self) -> Seq<char> {
        self.text_upto(Info::fields())
    }

    /// Where in the line the place `i` begins.
    pub open spec fn offset(&self, i: int) -> int {
        self.text_upto(i).len() as int
    }

    /// A report with no field set.
    pub fn new() -> (r: Info)
        ensures
            r.depth is None,
            r.sel_depth is None,
            r.node is None,
            r.time is None,
            r.pv is None,
            r.multi_pv is None,
            r.score is None,
            r.curr_move is None,
            r.hash_full is None,
            r.nodes_per_sec is None,
            r.tb_hits is None,
            r.sb_hits is None,
            r.cpu_load is None,
            r.string is None,
            r.refutation is None,
            r.curr_line is None,
            r.wf(),
    {
        Info {
            depth: None,
            sel_depth: None,
            node: None,
            time: None,
            pv: None,
            multi_pv: None,
            score: None,
            curr_move: None,
            hash_full: None,
            nodes_per_sec: None,
            tb_hits: None,
            sb_hits: None,
            cpu_load: None,
            string: None,
            refutation: None,
            curr_line: None,
        }
    }

    /// Sets the selective depth together with the depth that it belongs to.
    pub fn sel_depth(self, depth: u16, sel_depth: u16) -> (r: Info)
        ensures
            r == (Info { depth: Some(depth), sel_depth: Some(sel_depth), ..self }),
    {
        Info { depth: Some(depth), sel_depth: Some(sel_depth), ..self }
    }

    /// Sets the search depth in plies.
    pub fn depth(self, depth: u16) -> (r: Info)
        ensures
            r == (Info { depth: Some(depth), ..self }),
    {
        Info { depth: Some(depth), ..self }
    }

    /// Sets the number of nodes searched.
    pub fn node(self, node: u32) -> (r: Info)
        ensures
            r == (Info { node: Some(node), ..self }),
    {
        Info { node: Some(node), ..self }
    }

    /// Sets the time searched, in milliseconds.
    pub fn time(self, time: u128) -> (r: Info)
        ensures
            r == (Info { time: Some(time), ..self }),
    {
        Info { time: Some(time), ..self }
    }

    /// Sets the best line found.
    pub fn pv(self, pv: Vec<Pm>) -> (r: Info)
        ensures
            r == (Info { pv: Some(pv), ..self }),
    {
        Info { pv: Some(pv), ..self }
    }

    /// Sets the ranked line.
    pub fn multi_pv(self, multi_pv: MultiPv) -> (r: Info)
        ensures
            r == (Info { multi_pv: Some(multi_pv), ..self }),
    {
        Info { multi_pv: Some(multi_pv), ..self }
    }

    /// Sets the score.
    pub fn score(self, score: Score) -> (r: Info)
        ensures
            r == (Info { score: Some(score), ..self }),
    {
        Info { score: Some(score), ..self }
    }

    /// Sets the move being searched.
    pub fn curr_move(self, curr_move: Pm) -> (r: Info)
        ensures
            r == (Info { curr_move: Some(curr_move), ..self }),
    {
        Info { curr_move: Some(curr_move), ..self }
    }

    /// Sets the permille of the hash table in use.
    pub fn hash_full(self, hash_full: u16) -> (r: Info)
        ensures
            r == (Info { hash_full: Some(hash_full), ..self }),
    {
        Info { hash_full: Some(hash_full), ..self }
    }

    /// Sets the nodes searched per second.
    pub fn nodes_per_sec(self, nodes_per_sec: u32) -> (r: Info)
        ensures
            r == (Info { nodes_per_sec: Some(nodes_per_sec), ..self }),
    {
        Info { nodes_per_sec: Some(nodes_per_sec), ..self }
    }

    /// Sets the tablebase hits.
    pub fn tb_hits(self, tb_hits: u32) -> (r: Info)
        ensures
            r == (Info { tb_hits: Some(tb_hits), ..self }),
    {
        Info { tb_hits: Some(tb_hits), ..self }
    }

    /// Sets the shredder database hits.
    pub fn sb_hits(self, sb_hits: u32) -> (r: Info)
        ensures
            r == (Info { sb_hits: Some(sb_hits), ..self }),
    {
        Info { sb_hits: Some(sb_hits), ..self }
    }

    /// Sets the CPU usage in permille.
    pub fn cpu_load(self, cpu_load: u16) -> (r: Info)
        ensures
            r == (Info { cpu_load: Some(cpu_load), ..self }),
    {
        Info { cpu_load: Some(cpu_load), ..self }
    }

    /// Sets the free text.
    pub fn string(self, string: String) -> (r: Info)
        ensures
            r == (Info { string: Some(string), ..self }),
    {
        Info { string: Some(string), ..self }
    }

    /// Sets the refutation.
    pub fn refutation(self, refutation: Refutation) -> (r: Info)
        ensures
            r == (Info { refutation: Some(refutation), ..self }),
    {
        Info { refutation: Some(refutation), ..self }
    }

    /// Sets the line being calculated.
    pub fn curr_line(self, curr_line: CurrLine) -> (r: Info)
        ensures
            r == (Info { curr_line: Some(curr_line), ..self }),
    {
        Info { curr_line: Some(curr_line), ..self }
    }

    /// Appends what the field at place `i` adds to the line.
    pub fn push_segment(&self, out: &mut String, i: usize)
        requires
            i < Info::fields(),
        ensures
            final(out)@ == old(out)@ + self.segment(i as int),
    {
        if i == 0 {
            push_seg_u16(out, " depth ", self.depth);
        } else if i == 1 {
            push_seg_u16(out, " seldepth ", self.sel_depth);
        } else if i == 2 {
            push_seg_u32(out, " node ", self.node);
        } else if i == 3 {
            push_seg_u128(out, " time ", self.time);
        } else if i == 4 {
            match &self.pv {
                Some(pv) => {
                    out.append(" pv");
                    push_line(out, pv);
                },
                None => {},
            }
            assert(out@ =~= old(out)@ + self.pv_seg());
        } else if i == 5 {
            match &self.multi_pv {
                Some(m) => {
                    out.append(" ");
                    m.push_text(out);
                },
                None => {},
            }
            assert(out@ =~= old(out)@ + self.multi_pv_seg());
        } else if i == 6 {
            match &self.score {
                Some(sc) => {
                    out.append(" ");
                    sc.push_text(out);
                },
                None => {},
            }
            assert(out@ =~= old(out)@ + self.score_seg());
        } else if i == 7 {
            match &self.curr_move {
                Some(pm) => {
                    out.append(" currmove ");
                    pm.push_text(out);
                },
                None => {},
            }
            assert(out@ =~= old(out)@ + self.curr_move_seg());
        } else if i == 8 {
            push_seg_u16(out, " hashfull ", self.hash_full);
        } else if i == 9 {
            push_seg_u32(out, " nps ", self.nodes_per_sec);
        } else if i == 10 {
            push_seg_u32(out, " tbhits ", self.tb_hits);
        } else if i == 11 {
            push_seg_u32(out, " sbhits ", self.sb_hits);
        } else if i == 12 {
            push_seg_u16(out, " cpuload ", self.cpu_load);
        } else if i == 13 {
            match &self.string {
                Some(t) => {
                    out.append(" string ");
                    out.append(t.as_str());
                },
                None => {},
            }
            assert(out@ =~= old(out)@ + self.string_seg());
        } else if i == 14 {
            match &self.refutation {
                Some(r) => {
                    out.append(" ");
                    r.push_text(out);
                },
                None => {},
            }
            assert(out@ =~= old(out)@ + self.refutation_seg());
        } else {
            match &self.curr_line {
                Some(c) => {
                    out.append(" ");
                    c.push_text(out);
                },
                None => {},
            }
            assert(out@ =~= old(out)@ + self.curr_line_seg());
        }
    }

    /// Appends the canonical line.
    pub fn push_text(&self, out: &mut String)
        ensures
            final(out)@ == old(out)@ + self.text(),
    {
        out.append("info");
        let mut i: usize = 0;
        while i < 16
            invariant
                0 <= i <= 16,
                out@ == old(out)@ + self.text_upto(i as int),
            decreases 16 - i,
        {
            self.push_segment(out, i);
            assert(out@ =~= old(out)@ + (self.text_upto(i as int) + self.segment(i as int)));
            i = i + 1;
        }
    }

    /// The canonical line as a string.
    pub fn to_text(&self) -> (s: String)
        ensures
            s@ == self.text(),
    {
        let mut s = String::new();
        self.push_text(&mut s);
        assert(Seq::<char>::empty() + self.text() =~= self.text());
        s
    }

    /// What a field adds to the line of a well-formed report holds no line
    /// break.
    pub proof fn lemma_segment_one_line(self, i: int)
        requires
            self.wf(),
        ensures
            one_line(self.segment(i)),
    {
        reveal_strlit(" depth ");
        reveal_strlit(" seldepth ");
        reveal_strlit(" node ");
        reveal_strlit(" time ");
        reveal_strlit(" pv");
        reveal_strlit(" ");
        reveal_strlit(" currmove ");
        reveal_strlit(" hashfull ");
        reveal_strlit(" nps ");
        reveal_strlit(" tbhits ");
        reveal_strlit(" sbhits ");
        reveal_strlit(" cpuload ");
        reveal_strlit(" string ");
        if i == 0 {
            lemma_seg_u16_one_line(" depth "@, self.depth);
        } else if i == 1 {
            lemma_seg_u16_one_line(" seldepth "@, self.sel_depth);
        } else if i == 2 {
            lemma_seg_u32_one_line(" node "@, self.node);
        } else if i == 3 {
            lemma_seg_u128_one_line(" time "@, self.time);
        } else if i == 4 {
            if let Some(pv) = self.pv {
                lemma_line_of_one_line(pv@);
                lemma_one_line_concat(" pv"@, line_of(pv@));
            }
        } else if i == 5 {
            if let Some(m) = self.multi_pv {
                m.lemma_text_one_line();
                lemma_one_line_concat(" "@, m.text());
            }
        } else if i == 6 {
            if let Some(sc) = self.score {
                sc.lemma_text_one_line();
                lemma_one_line_concat(" "@, sc.text());
            }
        } else if i == 7 {
            if let Some(pm) = self.curr_move {
                pm.lemma_text_plain();
                lemma_one_line_concat(" currmove "@, pm.text());
            }
        } else if i == 8 {
            lemma_seg_u16_one_line(" hashfull "@, self.hash_full);
        } else if i == 9 {
            lemma_seg_u32_one_line(" nps "@, self.nodes_per_sec);
        } else if i == 10 {
            lemma_seg_u32_one_line(" tbhits "@, self.tb_hits);
        } else if i == 11 {
            lemma_seg_u32_one_line(" sbhits "@, self.sb_hits);
        } else if i == 12 {
            lemma_seg_u16_one_line(" cpuload "@, self.cpu_load);
        } else if i == 13 {
            if let Some(t) = self.string {
                lemma_one_line_concat(" string "@, t@);
            }
        } else if i == 14 {
            if let Some(r) = self.refutation {
                r.lemma_text_one_line();
                lemma_one_line_concat(" "@, r.text());
            }
        } else if i == 15 {
            if let Some(c) = self.curr_line {
                c.lemma_text_one_line();
                lemma_one_line_concat(" "@, c.text());
            }
        }
    }

    /// Every beginning of the line of a well-formed report holds no line
    /// break.
    pub proof fn lemma_text_upto_one_line(self, n: int)
        requires
            self.wf(),
        ensures
            one_line(self.text_upto(n)),
        decreases n,
    {
        if n <= 0 {
            reveal_strlit("info");
        } else {
            self.lemma_text_upto_one_line(n - 1);
            self.lemma_segment_one_line(n - 1);
            lemma_one_line_concat(self.text_upto(n - 1), self.segment(n - 1));
        }
    }

    /// The line as far as place `i` is the beginning of the line as far as any
    /// later place `n`.
    pub proof fn lemma_text_upto_prefix(self, i: int, n: int)
        requires
            0 <= i <= n,
        ensures
            self.offset(i) <= self.offset(n),
            self.text_upto(n).subrange(0, self.offset(i)) == self.text_upto(i),
        decreases n - i,
    {
        if i == n {
            assert(self.text_upto(n).subrange(0, self.offset(i)) =~= self.text_upto(i));
        } else {
            self.lemma_text_upto_prefix(i, n - 1);
            assert(self.text_upto(n).subrange(0, self.offset(i)) =~= self.text_upto(n - 1).subrange(
                0,
                self.offset(i),
            ));
        }
    }

    /// The fields stand in the line in the canonical order, whatever the
    /// report holds: what the field at place `i` adds stands at its offset,
    /// and ends before anything that a field at a later place `j` adds.
    pub proof fn lemma_field_order(self, i: int, j: int)
        requires
            0 <= i < j < Info::fields(),
        ensures
            self.offset(i) + self.segment(i).len() <= self.offset(j),
            self.offset(j) + self.segment(j).len() <= self.text().len(),
            self.text().subrange(self.offset(i), self.offset(i) + self.segment(i).len())
                == self.segment(i),
            self.text().subrange(self.offset(j), self.offset(j) + self.segment(j).len())
                == self.segment(j),
    {
        self.lemma_placed(i);
        self.lemma_placed(j);
        self.lemma_text_upto_prefix(i + 1, j);
    }

    /// What the field at place `i` adds stands in the line at its offset.
    pub proof fn lemma_placed(self, i: int)
        requires
            0 <= i < Info::fields(),
        ensures
            self.offset(i + 1) == self.offset(i) + self.segment(i).len(),
            self.offset(i + 1) <= self.text().len(),
            self.text().subrange(self.offset(i), self.offset(i) + self.segment(i).len())
                == self.segment(i),
    {
        self.lemma_text_upto_prefix(i + 1, Info::fields());
        let whole = self.text();
        let upto = self.text_upto(i + 1);
        assert(whole.subrange(0, self.offset(i + 1)) == upto);
        assert(upto == self.text_upto(i) + self.segment(i));
        assert(upto.subrange(self.offset(i), self.offset(i + 1)) =~= self.segment(i));
        assert(whole.subrange(self.offset(i), self.offset(i + 1)) =~= whole.subrange(
            0,
            self.offset(i + 1),
        ).subrange(self.offset(i), self.offset(i + 1)));
    }
}

/// A number behind a one-line keyword holds no line break.
pub proof fn lemma_seg_u16_one_line(kw: Seq<char>, v: Option<u16>)
    requires
        one_line(kw),
    ensures
        one_line(seg_u16(kw, v)),
{
    if let Some(n) = v {
        lemma_dec_one_line(n as nat);
        lemma_one_line_concat(kw, dec(n as nat));
    }
}

/// A number behind a one-line keyword holds no line break.
pub proof fn lemma_seg_u32_one_line(kw: Seq<char>, v: Option<u32>)
    requires
        one_line(kw),
    ensures
        one_line(seg_u32(kw, v)),
{
    if let Some(n) = v {
        lemma_dec_one_line(n as nat);
        lemma_one_line_concat(kw, dec(n as nat));
    }
}

/// A number behind a one-line keyword holds no line break.
pub proof fn lemma_seg_u128_one_line(kw: Seq<char>, v: Option<u128>)
    requires
        one_line(kw),
    ensures
        one_line(seg_u128(kw, v)),
{
    if let Some(n) = v {
        lemma_dec_one_line(n as nat);
        lemma_one_line_concat(kw, dec(n as nat));
    }
}

/// A command from the engine to the GUI.
#[derive(Clone, Debug, Eq, Hash, PartialEq)]
pub enum EngCmd {
    /// `id name`: the engine's name and version.
    IdName(String),
    /// `id author`: the engine's author.
    IdAuthor(String),
    /// `uciok`: the engine has sent its identity and options.
    UciOk,
    /// `readyok`: the engine has processed all input.
    ReadyOk,
    /// `bestmove`: the move found, and the move the engine would ponder on.
    BestMove { best: Pm, ponder: Option<Pm> },
    /// `info`: a report on the search.
    Info(Info),
    /// `option`: an option that can be changed.
    HasOpt(HasOpt),
}

/// What a `bestmove` line says of the move to ponder on.
pub open spec fn ponder_seg(ponder: Option<Pm>) -> Seq<char> {
    match ponder {
        Some(pm) => " ponder "@ + pm.text(),
        None => Seq::<char>::empty(),
    }
}

impl EngCmd {
    /// Whether every free text in the command fits on one line, and a report
    /// in it is well formed.
    pub open spec fn wf(&self) -> bool {
        match *self {
            EngCmd::IdName(name) => one_line(name@),
            EngCmd::IdAuthor(author) => one_line(author@),
            EngCmd::Info(info) => info.wf(),
            EngCmd::HasOpt(opt) => opt.wf(),
            _ => true,
        }
    }

    /// The canonical line of the command, without a line break at its end.
    pub open spec fn text(&self) -> Seq<char> {
        match *self {
            EngCmd::IdName(name) => "id name "@ + name@,
            EngCmd::IdAuthor(author) => "id author "@ + author@,
            EngCmd::UciOk => "uciok"@,
            EngCmd::ReadyOk => "readyok"@,
            EngCmd::BestMove { best, ponder } => "bestmove "@ + best.text() + ponder_seg(ponder),
            EngCmd::Info(info) => info.text(),
            EngCmd::HasOpt(opt) => opt.text(),
        }
    }

    /// The canonical line of the command.
    pub fn to_text(&self) -> (s: String)
        ensures
            s@ == self.text(),
    {
        let mut s = String::new();
        let ghost start = s@;
        match self {
            EngCmd::IdName(name) => {
                s.append("id name ");
                s.append(name.as_str());
            },
            EngCmd::IdAuthor(author) => {
                s.append("id author ");
                s.append(author.as_str());
            },
            EngCmd::UciOk => {
                s.append("uciok");
            },
            EngCmd::ReadyOk => {
                s.append("readyok");
            },
            EngCmd::BestMove { best, ponder } => {
                s.append("bestmove ");
                best.push_text(&mut s);
                match ponder {
                    Some(pm) => {
                        s.append(" ponder ");
                        pm.push_text(&mut s);
                    },
                    None => {},
                }
            },
            EngCmd::Info(info) => {
                info.push_text(&mut s);
            },
            EngCmd::HasOpt(opt) => {
                opt.push_text(&mut s);
            },
        }
        assert(s@ =~= self.text());
        s
    }

    /// The line of a well-formed command is exactly one line: no line break
    /// stands in it, at its end or elsewhere.
    pub proof fn lemma_text_one_line(self)
        requires
            self.wf(),
        ensures
            one_line(self.text()),
    {
        reveal_strlit("id name ");
        reveal_strlit("id author ");
        reveal_strlit("uciok");
        reveal_strlit("readyok");
        reveal_strlit("bestmove ");
        reveal_strlit(" ponder ");
        match self {
            EngCmd::IdName(name) => {
                lemma_one_line_concat("id name "@, name@);
            },
            EngCmd::IdAuthor(author) => {
                lemma_one_line_concat("id author "@, author@);
            },
            EngCmd::UciOk => {},
            EngCmd::ReadyOk => {},
            EngCmd::BestMove { best, ponder } => {
                best.lemma_text_plain();
                lemma_one_line_concat("bestmove "@, best.text());
                if let Some(pm) = ponder {
                    pm.lemma_text_plain();
                    lemma_one_line_concat(" ponder "@, pm.text());
                }
                lemma_one_line_concat("bestmove "@ + best.text(), ponder_seg(ponder));
            },
            EngCmd::Info(info) => {
                info.lemma_text_upto_one_line(Info::fields());
            },
            EngCmd::HasOpt(opt) => {
                opt.lemma_text_one_line();
            },
        }
    }
}

} // verus!
