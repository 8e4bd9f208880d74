//! A minimal virtual CPU: a register file of twelve signed 32-bit cells, a
//! main memory of forty-eight such cells, and a small textual instruction set
//! that is parsed into typed instructions and executed step by step under an
//! explicit program counter.

pub mod cpu_state;
pub mod errors;
pub mod operation;
pub mod text;
