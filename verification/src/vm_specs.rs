//! The structures that define the VM: registers, addresses, instructions,
//! and the program descriptor.

use vstd::prelude::*;
use std::collections::HashMap;

verus! {

/// General-purpose registers of the VM, a small closed enumeration.
/// Each register has a stable, contiguous index used as an array offset.
#[derive(Copy, Clone, Debug, PartialEq, Eq, Structural)]
pub enum Register {
    R0,
    R1,
}

/// Size of the register file; equals the number of `Register` variants.
pub const REGISTER_COUNT: usize = 2;

/// The stable array index of a register.
pub open spec fn reg_index(r: Register) -> int {
    match r {
        Register::R0 => 0,
        Register::R1 => 1,
    }
}

impl Register {
    /// Contiguous index of this register, used as an offset into the
    /// register file.
    pub fn index(&self) -> (r: usize)
        ensures
            r == reg_index(*self),
    {
        match self {
            Register::R0 => 0,
            Register::R1 => 1,
        }
    }
}

impl Default for Register {
    fn default() -> (r: Self)
        ensures
            r == Register::R0,
    {
        Register::R0
    }
}

/// A memory address. All memory locations in this VM are addressed via
/// a single byte: the whole address space is 256 cells.
#[derive(Clone, Copy, Debug, PartialEq, Eq, Structural)]
pub struct MemoryLocation(pub u8);

impl Default for MemoryLocation {
    fn default() -> (r: Self)
        ensures
            r == (MemoryLocation(0)),
    {
        MemoryLocation(0)
    }
}

/// An instruction address: the location of an instruction in the code map.
/// Jump targets are absolute instruction locations.
#[derive(Clone, Copy, Debug, PartialEq, Eq, Structural)]
pub struct InstructionLocation(pub u8);

impl Default for InstructionLocation {
    fn default() -> (r: Self)
        ensures
            r == (InstructionLocation(0)),
    {
        InstructionLocation(0)
    }
}

/// The VM's instruction set: binary arithmetic on two registers (result to
/// the first, 8-bit wrapping), shifts (amount held in the second register,
/// reduced mod 8), conditional jumps to an absolute target, byte load and
/// store, and halt.
#[derive(Clone, Copy, Debug, PartialEq, Eq, Structural)]
pub enum Instruction {
    Add(Register, Register),
    Sub(Register, Register),
    Mul(Register, Register),
    Div(Register, Register),
    Shl(Register, Register),
    Shr(Register, Register),
    Jz(Register, InstructionLocation),
    Jnz(Register, InstructionLocation),
    Lb(Register, MemoryLocation),
    Sb(Register, MemoryLocation),
    Halt,
}

/// Number of opcodes; the one-hot block of the CPU table has one column
/// per opcode.
pub const OPCODE_COUNT: usize = 11;

/// The stable numeric opcode of each instruction variant, assigned
/// contiguously from zero. This numbering is a wire contract consumed by
/// the one-hot encoding of the CPU table and must never be renumbered.
pub open spec fn opcode(i: Instruction) -> u8 {
    match i {
        Instruction::Add(_, _) => 0,
        Instruction::Sub(_, _) => 1,
        Instruction::Mul(_, _) => 2,
        Instruction::Div(_, _) => 3,
        Instruction::Shl(_, _) => 4,
        Instruction::Shr(_, _) => 5,
        Instruction::Jz(_, _) => 6,
        Instruction::Jnz(_, _) => 7,
        Instruction::Lb(_, _) => 8,
        Instruction::Sb(_, _) => 9,
        Instruction::Halt => 10,
    }
}

/// The memory or instruction address an instruction touches: the jump
/// target for conditional jumps, the memory location for load and store,
/// and 0 for every other instruction.
pub open spec fn operand_address(i: Instruction) -> u8 {
    match i {
        Instruction::Jz(_, l) => l.0,
        Instruction::Jnz(_, l) => l.0,
        Instruction::Lb(_, l) => l.0,
        Instruction::Sb(_, l) => l.0,
        _ => 0,
    }
}

impl Instruction {
    /// The stable opcode index of this instruction.
    pub fn get_opcode(&self) -> (r: u8)
        ensures
            r == opcode(*self),
    {
        match self {
            Instruction::Add(_, _) => 0,
            Instruction::Sub(_, _) => 1,
            Instruction::Mul(_, _) => 2,
            Instruction::Div(_, _) => 3,
            Instruction::Shl(_, _) => 4,
            Instruction::Shr(_, _) => 5,
            Instruction::Jz(_, _) => 6,
            Instruction::Jnz(_, _) => 7,
            Instruction::Lb(_, _) => 8,
            Instruction::Sb(_, _) => 9,
            Instruction::Halt => 10,
        }
    }
}

impl Default for Instruction {
    fn default() -> (r: Self)
        ensures
            r == Instruction::Halt,
    {
        Instruction::Halt
    }
}

/// An immutable program descriptor: the entry point, the code map from
/// instruction address to instruction (the address space is the map's
/// domain, not necessarily contiguous), and the initial memory layout.
/// Constructed once by a loader and never mutated afterwards.
#[derive(Debug)]
pub struct Program {
    /// The entrypoint of the program.
    pub entry_point: u8,

    /// The code.
    pub code: HashMap<u8, Instruction>,

    /// Initial memory layout at the start of the program.
    pub memory_init: HashMap<u8, u8>,
}

impl Default for Program {
    fn default() -> (r: Self)
        ensures
            r.entry_point == 0,
            r.code@ == Map::<u8, Instruction>::empty(),
            r.memory_init@ == Map::<u8, u8>::empty(),
    {
        Program {
            entry_point: 0,
            code: HashMap::new(),
            memory_init: HashMap::new(),
        }
    }
}

} // verus!
