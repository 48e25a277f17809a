//! Commands from the GUI to the engine, and the builders of the two compound
//! ones.

use vstd::prelude::*;
use crate::err::UziErr;
use crate::err::UziErrView;
use crate::opt::UciOpt;
use crate::opt::UciOptView;
use crate::text::texts;

verus! {

/// The base position of a `position` command.
#[derive(Clone, Debug, PartialEq)]
pub enum PosOpt {
    StartPos,
    Fen(String),
}

/// The mathematical value of a [`PosOpt`].
pub enum PosOptView {
    StartPos,
    Fen(Seq<char>),
}

impl View for PosOpt {
    type V = PosOptView;

    open spec fn view(&self) -> PosOptView {
        match *self {
            PosOpt::StartPos => PosOptView::StartPos,
            PosOpt::Fen(fen) => PosOptView::Fen(fen@),
        }
    }
}

/// The `position` command: a base position and the moves played from it.
#[derive(Clone, Debug, PartialEq)]
pub struct Pos {
    /// The position to start from.
    pub pos: PosOpt,
    /// The moves played from there, in the order in which they were played.
    pub moves: Option<Vec<String>>,
}

/// The mathematical value of a [`Pos`].
pub struct PosView {
    pub pos: PosOptView,
    pub moves: Option<Seq<Seq<char>>>,
}

/// The move list of a position or of a builder as character sequences.
pub open spec fn moves_view(moves: Option<Vec<String>>) -> Option<Seq<Seq<char>>> {
    match moves {
        Some(v) => Some(texts(v@)),
        None => None,
    }
}

impl View for Pos {
    type V = PosView;

    open spec fn view(&self) -> PosView {
        PosView { pos: self.pos@, moves: moves_view(self.moves) }
    }
}

/// Accumulates the parts of a `position` command.
#[derive(Debug, Clone)]
pub struct PosBuilder {
    pos: Option<PosOpt>,
    moves: Option<Vec<String>>,
}

/// What a [`PosBuilder`] holds: the base chosen, if any, and the moves added.
pub struct PosBuilderView {
    pub pos: Option<PosOptView>,
    pub moves: Option<Seq<Seq<char>>>,
}

impl View for PosBuilder {
    type V = PosBuilderView;

    closed spec fn view(&self) -> PosBuilderView {
        PosBuilderView {
            pos: match self.pos {
                Some(p) => Some(p@),
                None => None,
            },
            moves: moves_view(self.moves),
        }
    }
}

impl PosBuilder {
    /// A builder with neither base position nor moves.
    pub fn new() -> (b: Self)
        ensures
            b@ == (PosBuilderView { pos: None, moves: None }),
    {
        Self { pos: None, moves: None }
    }

    /// Chooses the initial position of a new game as the base, replacing any
    /// base chosen before.
    pub fn start_pos(&mut self) -> (ret: &mut Self)
        ensures
            ret@ == (PosBuilderView { pos: Some(PosOptView::StartPos), moves: old(self)@.moves }),
            *final(self) == *final(ret),
    {
        self.pos = Some(PosOpt::StartPos);
        self
    }

    /// Chooses the position given in Forsyth-Edwards notation as the base,
    /// replacing any base chosen before.
    pub fn fen(&mut self, fen: &str) -> (ret: &mut Self)
        ensures
            ret@ == (PosBuilderView { pos: Some(PosOptView::Fen(fen@)), moves: old(self)@.moves }),
            *final(self) == *final(ret),
    {
        self.pos = Some(PosOpt::Fen(fen.to_owned()));
        self
    }

    /// Appends a move; moves stay in the order in which they were added.
    pub fn add_move(&mut self, mv: &str) -> (ret: &mut Self)
        ensures
            ret@.pos == old(self)@.pos,
            ret@.moves == Some(
                match old(self)@.moves {
                    Some(m) => m.push(mv@),
                    None => seq![mv@],
                },
            ),
            *final(self) == *final(ret),
    {
        let added = mv.to_owned();
        match self.moves.take() {
            Some(mut moves) => {
                proof {
                    assert(texts(moves@.push(added)) =~= texts(moves@).push(mv@));
                }
                moves.push(added);
                self.moves = Some(moves);
            },
            None => {
                let mut moves: Vec<String> = Vec::new();
                moves.push(added);
                proof {
                    assert(texts(moves@) =~= seq![mv@]);
                }
                self.moves = Some(moves);
            },
        }
        self
    }

    /// Hands out the position and empties the builder. Fails, leaving the
    /// builder as it is, when no base position was chosen.
    pub fn build(&mut self) -> (res: Result<Pos, UziErr>)
        ensures
            match old(self)@.pos {
                Some(p) => res matches Ok(pos)
                    && pos@ == (PosView { pos: p, moves: old(self)@.moves })
                    && final(self)@ == (PosBuilderView { pos: None, moves: None }),
                None => res matches Err(e) && e@ == UziErrView::Position
                    && final(self)@ == old(self)@,
            },
    {
        match self.pos.take() {
            None => Err(UziErr::Position),
            Some(pos) => Ok(Pos { pos, moves: self.moves.take() }),
        }
    }
}

/// The `go` command: the limits under which the engine is to search.
#[derive(Clone, Debug, PartialEq)]
pub struct Go {
    /// Restrict the search to these moves.
    pub search_moves: Option<Vec<String>>,
    /// Search in pondering mode.
    pub ponder: Option<bool>,
    /// Milliseconds on white's clock.
    pub wtime: Option<u32>,
    /// Milliseconds on black's clock.
    pub btime: Option<u32>,
    /// White's increment per move, in milliseconds.
    pub winc: Option<u16>,
    /// Black's increment per move, in milliseconds.
    pub binc: Option<u16>,
    /// Moves until the next time control.
    pub moves_to_go: Option<u16>,
    /// Search this many plies only.
    pub depth: Option<u16>,
    /// Search this many nodes only.
    pub nodes: Option<u64>,
    /// Search for a mate in this many moves.
    pub mate: Option<u16>,
    /// Search exactly this many milliseconds.
    pub move_time: Option<u32>,
    /// Search until told to stop.
    pub infinite: Option<()>,
}

/// The mathematical value of a [`Go`], and of what a [`GoBuilder`] holds.
pub struct GoView {
    pub search_moves: Option<Seq<Seq<char>>>,
    pub ponder: Option<bool>,
    pub wtime: Option<u32>,
    pub btime: Option<u32>,
    pub winc: Option<u16>,
    pub binc: Option<u16>,
    pub moves_to_go: Option<u16>,
    pub depth: Option<u16>,
    pub nodes: Option<u64>,
    pub mate: Option<u16>,
    pub move_time: Option<u32>,
    pub infinite: Option<()>,
}

impl GoView {
    /// The command with nothing set.
    pub open spec fn unset() -> GoView {
        GoView {
            search_moves: None,
            ponder: None,
            wtime: None,
            btime: None,
            winc: None,
            binc: None,
            moves_to_go: None,
            depth: None,
            nodes: None,
            mate: None,
            move_time: None,
            infinite: None,
        }
    }
}

impl View for Go {
    type V = GoView;

    open spec fn view(&self) -> GoView {
        GoView {
            search_moves: moves_view(self.search_moves),
            ponder: self.ponder,
            wtime: self.wtime,
            btime: self.btime,
            winc: self.winc,
            binc: self.binc,
            moves_to_go: self.moves_to_go,
            depth: self.depth,
            nodes: self.nodes,
            mate: self.mate,
            move_time: self.move_time,
            infinite: self.infinite,
        }
    }
}

impl Default for Go {
    /// The command with nothing set.
    fn default() -> (go: Go)
        ensures
            go@ == GoView::unset(),
    {
        Go {
            search_moves: None,
            ponder: None,
            wtime: None,
            btime: None,
            winc: None,
            binc: None,
            moves_to_go: None,
            depth: None,
            nodes: None,
            mate: None,
            move_time: None,
            infinite: None,
        }
    }
}

impl Go {
    /// The command with nothing set.
    #[inline]
    pub fn new() -> (go: Go)
        ensures
            go@ == GoView::unset(),
    {
        Go::default()
    }

    /// Whether no limit is set and `infinite` is not set either.
    pub fn is_unset(&self) -> (b: bool)
        ensures
            b == (self@ == GoView::unset()),
    {
        self.search_moves.is_none() && self.ponder.is_none() && self.wtime.is_none()
            && self.btime.is_none() && self.winc.is_none() && self.binc.is_none()
            && self.moves_to_go.is_none() && self.depth.is_none() && self.nodes.is_none()
            && self.mate.is_none() && self.move_time.is_none() && self.infinite.is_none()
    }
}

/// Accumulates the limits of a `go` command. No setter looks at any other
/// field; only `build` decides whether the command can stand.
#[derive(Debug, Clone)]
pub struct GoBuilder {
    go: Go,
}

impl View for GoBuilder {
    type V = GoView;

    closed spec fn view(&self) -> GoView {
        self.go@
    }
}

impl GoBuilder {
    /// A builder with nothing set.
    pub fn new() -> (b: Self)
        ensures
            b@ == GoView::unset(),
    {
        Self { go: Go::new() }
    }

    /// Restricts the search to the given moves.
    pub fn search_moves(&mut self, moves: Vec<String>) -> (ret: &mut Self)
        ensures
            ret@ == (GoView { search_moves: Some(texts(moves@)), ..old(self)@ }),
            *final(self) == *final(ret),
    {
        self.go.search_moves = Some(moves);
        self
    }

    /// Asks for a search in pondering mode.
    pub fn ponder(&mut self) -> (ret: &mut Self)
        ensures
            ret@ == (GoView { ponder: Some(true), ..old(self)@ }),
            *final(self) == *final(ret),
    {
        self.go.ponder = Some(true);
        self
    }

    /// Asks for a search that lasts until it is stopped.
    pub fn infinite(&mut self) -> (ret: &mut Self)
        ensures
            ret@ == (GoView { infinite: Some(()), ..old(self)@ }),
            *final(self) == *final(ret),
    {
        self.go.infinite = Some(());
        self
    }

    /// Sets the milliseconds on white's clock.
    pub fn wtime(&mut self, wtime: u32) -> (ret: &mut Self)
        ensures
            ret@ == (GoView { wtime: Some(wtime), ..old(self)@ }),
            *final(self) == *final(ret),
    {
        self.go.wtime = Some(wtime);
        self
    }

    /// Sets the milliseconds on black's clock.
    pub fn btime(&mut self, btime: u32) -> (ret: &mut Self)
        ensures
            ret@ == (GoView { btime: Some(btime), ..old(self)@ }),
            *final(self) == *final(ret),
    {
        self.go.btime = Some(btime);
        self
    }

    /// Sets white's increment per move, in milliseconds.
    pub fn winc(&mut self, winc: u16) -> (ret: &mut Self)
        ensures
            ret@ == (GoView { winc: Some(winc), ..old(self)@ }),
            *final(self) == *final(ret),
    {
        self.go.winc = Some(winc);
        self
    }

    /// Sets black's increment per move, in milliseconds.
    pub fn binc(&mut self, binc: u16) -> (ret: &mut Self)
        ensures
            ret@ == (GoView { binc: Some(binc), ..old(self)@ }),
            *final(self) == *final(ret),
    {
        self.go.binc = Some(binc);
        self
    }

    /// Sets the number of moves until the next time control.
    pub fn moves_to_go(&mut self, moves_to_go: u16) -> (ret: &mut Self)
        ensures
            ret@ == (GoView { moves_to_go: Some(moves_to_go), ..old(self)@ }),
            *final(self) == *final(ret),
    {
        self.go.moves_to_go = Some(moves_to_go);
        self
    }

    /// Limits the search to a number of plies.
    pub fn depth(&mut self, depth: u16) -> (ret: &mut Self)
        ensures
            ret@ == (GoView { depth: Some(depth), ..old(self)@ }),
            *final(self) == *final(ret),
    {
        self.go.depth = Some(depth);
        self
    }

    /// Limits the search to a number of nodes.
    pub fn nodes(&mut self, nodes: u64) -> (ret: &mut Self)
        ensures
            ret@ == (GoView { nodes: Some(nodes), ..old(self)@ }),
            *final(self) == *final(ret),
    {
        self.go.nodes = Some(nodes);
        self
    }

    /// Asks for a mate in a number of moves.
    pub fn mate(&mut self, mate: u16) -> (ret: &mut Self)
        ensures
            ret@ == (GoView { mate: Some(mate), ..old(self)@ }),
            *final(self) == *final(ret),
    {
        self.go.mate = Some(mate);
        self
    }

    /// Sets the exact duration of the search, in milliseconds.
    pub fn move_time(&mut self, move_time: u32) -> (ret: &mut Self)
        ensures
            ret@ == (GoView { move_time: Some(move_time), ..old(self)@ }),
            *final(self) == *final(ret),
    {
        self.go.move_time = Some(move_time);
        self
    }

    /// Hands out the command and empties the builder. Fails, leaving the
    /// builder empty as it was, when no limit and no `infinite` was set.
    pub fn build(&mut self) -> (res: Result<Go, UziErr>)
        ensures
            final(self)@ == GoView::unset(),
            old(self)@ == GoView::unset() ==> (res matches Err(e) && e@
                == UziErrView::NothingSetForGo),
            old(self)@ != GoView::unset() ==> (res matches Ok(go) && go@ == old(self)@),
    {
        if self.go.is_unset() {
            return Err(UziErr::NothingSetForGo);
        }
        let mut go = Go::new();
        std::mem::swap(&mut self.go, &mut go);
        Ok(go)
    }
}

/// A command from the GUI to the engine.
#[derive(Clone, Debug, PartialEq)]
pub enum GuiCmd {
    /// `uci`: switch to this protocol.
    Uci,
    /// `debug`: switch the debug mode on or off.
    Debug(bool),
    /// `isready`: answer when all input is processed.
    IsReady,
    /// `setoption`: change an option of the engine.
    SetOpt(UciOpt),
    /// `ucinewgame`: the next search belongs to another game.
    NewGame,
    /// `position`: set up a position.
    Pos(Pos),
    /// `go`: start to search.
    Go(Go),
    /// `stop`: stop searching as soon as possible.
    Stop,
    /// `ponderhit`: the expected move was played.
    Ponderhit,
}

/// The mathematical value of a [`GuiCmd`].
pub enum GuiCmdView {
    Uci,
    Debug(bool),
    IsReady,
    SetOpt(UciOptView),
    NewGame,
    Pos(PosView),
    Go(GoView),
    Stop,
    Ponderhit,
}

impl View for GuiCmd {
    type V = GuiCmdView;

    open spec fn view(&self) -> GuiCmdView {
        match *self {
            GuiCmd::Uci => GuiCmdView::Uci,
            GuiCmd::Debug(on) => GuiCmdView::Debug(on),
            GuiCmd::IsReady => GuiCmdView::IsReady,
            GuiCmd::SetOpt(opt) => GuiCmdView::SetOpt(opt@),
            GuiCmd::NewGame => GuiCmdView::NewGame,
            GuiCmd::Pos(pos) => GuiCmdView::Pos(pos@),
            GuiCmd::Go(go) => GuiCmdView::Go(go@),
            GuiCmd::Stop => GuiCmdView::Stop,
            GuiCmd::Ponderhit => GuiCmdView::Ponderhit,
        }
    }
}

} // verus!
