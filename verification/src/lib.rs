//! An IRC client library: the message grammar (parsing and serialising
//! lines of the IRC client protocol), the framing of a byte stream into
//! lines, and the client's registration messages.

pub mod text;
pub mod number;
pub mod message;
pub mod pattern;
pub mod framing;
pub mod app;
pub mod laws;
