//! A compiler for Snek, a small language of S-expressions, to x86-64
//! assembly, with the value representation and the runtime logic that the
//! emitted code relies on.
pub mod abstract_syntax;
pub mod constants;
pub mod assembly;
pub mod syntax;
pub mod depth;
pub mod parser;
pub mod tables;
pub mod compiler;
pub mod runtime;
pub mod semantics;
