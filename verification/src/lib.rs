//! A minimal 8-bit register machine together with a textual assembler for it.
//!
//! The assembler (`parser`) turns a newline-delimited source text into a
//! fixed-length program of 256 decoded instructions; the processor (`proc`)
//! executes such a program against four 8-bit registers and a 256-cell
//! memory until the program counter reaches the boundary address 255 or an
//! arithmetic instruction overflows.

pub mod names;
pub mod parser;
pub mod proc;
pub mod text;

pub use names::Instruction;
pub use names::Register;
pub use parser::ParserError;
pub use parser::parse_program;
pub use proc::ExecutionError;
pub use proc::Processor;
