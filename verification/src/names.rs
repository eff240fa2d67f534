//! The instruction vocabulary: register names and decoded instructions.

use vstd::prelude::*;

verus! {

/// One of the four named 8-bit storage cells of the machine.
#[derive(Clone, Copy, Debug, PartialEq, Eq, Structural)]
pub enum Register {
    /// The first general purpose register.
    A,
    /// The second general purpose register.
    B,
    /// The result register: the write target of arithmetic.
    Res,
    /// The program counter: the address of the next instruction to fetch.
    Rip,
}

/// A decoded instruction. A program is a fixed array of 256 of these,
/// indexed by address; unused slots hold `Nop`.
#[derive(Clone, Copy, Debug, PartialEq, Eq, Structural)]
pub enum Instruction {
    /// Set the register to the literal value.
    Move(Register, u8),
    /// Copy the value of the second register into the first.
    Cpy(Register, Register),
    /// Subtract the second register from the first; the difference goes to
    /// the result register, or execution fails on underflow.
    Sub(Register, Register),
    /// Add the two registers; the sum goes to the result register, or
    /// execution fails on overflow.
    Add(Register, Register),
    /// Read memory at the address held in the second register into the first.
    LoadFromAddress(Register, Register),
    /// Store the second register's value into memory at the address held in
    /// the first register.
    LoadToAddress(Register, Register),
    /// Jump to the address if register A is less than register B.
    JumpLessThan(u8),
    /// Jump to the address if register A is greater than register B.
    JumpGreaterThan(u8),
    /// Jump to the address if register A equals register B.
    JumpEqual(u8),
    /// Jump to the address unconditionally.
    Jump(u8),
    /// Emit the value of the register to the output record.
    Dump(Register),
    /// Emit the memory value at the address held in the register.
    DumpMem(Register),
    /// Do nothing.
    Nop,
}

} // verus!
