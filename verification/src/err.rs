//! The closed set of failures that parsing and validation can report.

use vstd::prelude::*;

verus! {

/// Every way in which a command line or a builder can be rejected.
#[derive(Debug, Clone, PartialEq)]
pub enum UziErr {
    BadBool,
    /// A time-valued keyword (first field) was followed by a token (second
    /// field) that is not a number of milliseconds.
    BadMillis(String, String),
    BadNumber,
    BadOpponent,
    BadPlayerType,
    BadTitle,
    GoErr,
    MissingCmd,
    MissingOnOff,
    NothingSetForGo,
    Position,
    SetOptErr,
    UnknownOpt,
    What,
}

/// The mathematical value of a [`UziErr`]: text payloads as character sequences.
pub enum UziErrView {
    BadBool,
    BadMillis(Seq<char>, Seq<char>),
    BadNumber,
    BadOpponent,
    BadPlayerType,
    BadTitle,
    GoErr,
    MissingCmd,
    MissingOnOff,
    NothingSetForGo,
    Position,
    SetOptErr,
    UnknownOpt,
    What,
}

impl View for UziErr {
    type V = UziErrView;

    open spec fn view(&self) -> UziErrView {
        match *self {
            UziErr::BadBool => UziErrView::BadBool,
            UziErr::BadMillis(field, raw) => UziErrView::BadMillis(field@, raw@),
            UziErr::BadNumber => UziErrView::BadNumber,
            UziErr::BadOpponent => UziErrView::BadOpponent,
            UziErr::BadPlayerType => UziErrView::BadPlayerType,
            UziErr::BadTitle => UziErrView::BadTitle,
            UziErr::GoErr => UziErrView::GoErr,
            UziErr::MissingCmd => UziErrView::MissingCmd,
            UziErr::MissingOnOff => UziErrView::MissingOnOff,
            UziErr::NothingSetForGo => UziErrView::NothingSetForGo,
            UziErr::Position => UziErrView::Position,
            UziErr::SetOptErr => UziErrView::SetOptErr,
            UziErr::UnknownOpt => UziErrView::UnknownOpt,
            UziErr::What => UziErrView::What,
        }
    }
}

} // verus!
