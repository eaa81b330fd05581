//! An implementation of the state machine described by
//! [DEC ANSI Parser](https://vt100.net/emu/dec_ansi_parser), modified to support UTF-8.
//!
//! This is sufficient to broadly categorize ANSI/ECMA-48 escape sequences that are
//! commonly used in terminal emulators.  It does not ascribe semantic meaning to
//! those escape sequences; for example, if you wish to parse the SGR sequence
//! that makes text bold, you will need to know which codes correspond to bold
//! in your implementation of `VTActor`.
//!
//! The parser is specified by `ParserModel::step` (one byte) and
//! `ParserModel::run` (a sequence of bytes); `invariant_laws`, `laws`, `param_laws`
//! and `table_laws` state and prove what holds of every input.
pub mod actor;
pub mod enums;
pub mod invariant_laws;
pub mod laws;
pub mod param_laws;
pub mod model;
pub mod parser;
pub mod table_laws;
pub mod transitions;
pub mod utf8;

pub use actor::{CollectingVTActor, VTAction, VTActor, VTEvent};
pub use enums::{Action, State};
pub use model::{OscModel, ParserModel};
pub use parser::{OscState, VTParser};
