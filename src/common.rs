//! Rules of a single token, each exposed as a way to expect that token after a node.
pub mod identifier;
pub mod list_separator;
pub mod newline;
pub mod operation;
pub mod space;
