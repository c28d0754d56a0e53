//! A virtual machine for a closed 16-bit instruction set: a decoder for the
//! instruction stream, an execution engine that runs it one step at a time
//! and yields to its driver for console input and output, and a small
//! recorder of typed console lines.

pub mod parse;
pub mod text;
pub mod machine;
pub mod laws;
pub mod replay;
