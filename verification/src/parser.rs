//! The parsing engine: literals, the token buffer and its cursors, the
//! stream with its atomic `step`, and the capabilities of the node types.

pub mod buffer;
pub mod lexer;
pub mod literal;
pub mod parse;
pub mod token;
