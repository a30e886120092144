//! A compiler from a small function-oriented source language to the
//! instruction set of a stack-based zero-knowledge virtual machine,
//! together with the surrounding pipeline: locating source units under
//! registered roots, compiling the reachable call graph into a linear
//! instruction stream, emitting that stream as assembly text, packaging
//! comma-separated field-element literals into input sequences, and
//! driving the external proving engine.

pub mod ast;
pub mod compiler;
pub mod driver;
pub mod emitter;
pub mod error;
pub mod inputs;
pub mod instr;
pub mod locator;
pub mod parse;
