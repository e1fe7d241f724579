//! A reader for CAN network descriptions in the DBC text format.
//!
//! The text is read line by line in a single pass. Message lines open a
//! message, signal lines attach to the message that is open, and comment and
//! value-table lines annotate messages and signals that have already been
//! read. Every executable function carries a contract over a mathematical
//! model of the text and of the network that comes out.

pub mod laws;
pub mod model;
pub mod parser;
pub mod pattern;
pub mod record;
pub mod text;

pub use model::{ByteOrder, DBCData, Message, Signal};
pub use parser::{parse_dbc_text, Parser};
pub use pattern::ParseError;
