//! Execution core of a small scripting language: a compact bytecode format
//! (chunks of encoded instructions with a run-length-encoded line table and a
//! constant pool) together with a stack-based virtual machine that executes
//! it, and a disassembler for diagnostics.

pub mod chunk;
pub mod debug;
pub mod op;
pub mod rle;
pub mod scanner;
pub mod value;
pub mod vm;
