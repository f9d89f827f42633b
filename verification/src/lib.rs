//! A parser for the text form of a heap trace: a log of heap events, each
//! followed or preceded by the frames of the call stack that was taken when
//! it happened.
//!
//! The log begins with a header that declares the columns of each kind of
//! row. The parser reads the rows of the body by position, so it first makes
//! sure that the header declares exactly the columns it expects. It then
//! gathers the events and the call stacks of the body and joins them by
//! position. A log is parsed as a whole or refused as a whole.

pub mod event;
pub mod loader;
pub mod log;
pub mod number;
pub mod pairing;
pub mod parser;
pub mod schema;
pub mod stacks;
pub mod text;

pub use event::{HeapAction, ParseError, Stack};
pub use number::parse_hex;
pub use parser::{parse, parse_text};
