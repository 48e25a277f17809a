//! A codec for the Universal Chess Interface text protocol: lines sent by a
//! GUI are parsed into structured commands, and structured engine commands are
//! rendered as canonical protocol lines.

pub mod err;
pub mod text;
pub mod pm;
pub mod tokens;
pub mod opt;
pub mod engcmd;
pub mod gui;
pub mod parse;
pub mod canon;
