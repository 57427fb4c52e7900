//! A small register machine: a fixed-width bytecode, its byte encoding, an
//! assembler front end that produces it, and the engine that runs it.
use vstd::prelude::*;

pub mod instruction;
pub mod vm;
pub mod assembler;
pub mod repl;

verus! {

} // verus!
