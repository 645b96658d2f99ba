//! A verified parser for the head of an HTTP/1.x request: the request line
//! (method, target, protocol token) and the header block that follows it.
//!
//! The parser is a pure function from text to a structured request value or
//! a typed error; it performs no I/O and keeps no state between calls.

pub mod text;
pub mod uri;
pub mod parser;
pub mod laws;
