//! A small arithmetic language built on a speculative recursive-descent
//! parsing engine.
//!
//! The engine lives in [`parser`]: a token buffer with copyable cursors, a
//! stream whose position only moves through an all-or-nothing `step`, forks
//! for lookahead, and the three capabilities `Token`, `Parse` and `ToTokens`.
//! The arithmetic language on top of it has its tree in [`ast`], its grammar
//! in [`parsing`], its semantic analysis in [`analysis`], an evaluator in
//! [`run`] and a machine-code generator in [`codegen`]. [`diagnostics`] holds
//! the source ranges and messages that all of them speak in, and [`text`]
//! how numbers and quoted text are written out.

pub mod analysis;
pub mod ast;
pub mod codegen;
pub mod diagnostics;
pub mod parser;
pub mod parsing;
pub mod run;
pub mod text;
