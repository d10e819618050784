//! The virtual machine: bytecode, registers, contexts and memory regions.
pub mod bytecode;
pub mod registers;
pub mod machine;
