//! A compiler and virtual machine for a dialogue scripting language.
//!
//! Source files describe branching conversations as named nodes containing
//! lines, player options, embedded expressions, variables and host commands.
//! The compiler lexes, parses, type-checks and lowers them to bytecode for a
//! small stack machine; the virtual machine executes that bytecode
//! cooperatively, surfacing lines, option sets and commands to a host.

mod analysis;
mod codegen;
pub mod codec;
pub mod collections;
pub mod compiler;
pub mod cst;
pub mod diagnostics;
pub mod discipline;
mod lexer;
pub mod library;
mod parser;
pub mod text;
pub mod types;
pub mod program;
pub mod storage;
pub mod strings;
pub mod tagging;
pub mod value;
pub mod vm;

use vstd::prelude::*;

verus! {

} // verus!
