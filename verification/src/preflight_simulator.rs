//! Deterministic, unconstrained interpretation of a program into a
//! complete, immutable execution history.
//!
//! Execution proper starts at clock 1; clock 0 is reserved for the
//! pre-execution state (the initial memory). Every step is derived from the
//! previous row by copy: earlier rows are never mutated.
//!
//! Documented policies of this interpreter:
//! - the tentative program counter is the current one plus 1, modulo 256
//!   (the address space is a ring of 256 cells);
//! - shift amounts are reduced modulo 8, never an error;
//! - a division whose divisor register holds 0 yields 0;
//! - a memory read of an address that was never written and is absent from
//!   the initial memory yields 0, never an error.

use vstd::prelude::*;
use std::collections::HashMap;

use crate::vm_specs::{
    reg_index,
    Instruction,
    Program,
    Register,
    REGISTER_COUNT,
};

verus! {

broadcast use {vstd::std_specs::hash::group_hash_axioms, vstd::array::group_array_axioms};

/// The ways a simulation can fail. Every failure aborts the whole run: no
/// partial simulation is ever returned alongside an error.
#[derive(Clone, Copy, Debug, PartialEq, Eq, Structural)]
pub enum SimulationError {
    /// The program counter or a jump target has no instruction in the code
    /// map. Jumping outside the code map is fatal, not a no-op.
    InstructionNotFound,
    /// Execution did not produce a halted row within
    /// `MAX_CPU_CYCLES_ALLOWED` cycles. Distinguishes non-termination from
    /// genuine progress.
    CycleLimitExceeded,
}

/// Maximum number of CPU cycles allowed before a run is declared
/// non-terminating.
pub const MAX_CPU_CYCLES_ALLOWED: usize = 1000;

/// The mathematical content of one `SimulationRow`: what the row says,
/// free of any representation choice.
#[verifier::ext_equal]
pub struct RowModel {
    pub instruction: Instruction,
    pub clock: nat,
    pub program_counter: u8,
    pub is_halted: bool,
    pub registers: Seq<u8>,
    pub memory: Map<u8, u8>,
}

/// Addition modulo 256.
pub open spec fn wrap_add(a: u8, b: u8) -> u8 {
    ((a + b) % 256) as u8
}

/// Subtraction modulo 256.
pub open spec fn wrap_sub(a: u8, b: u8) -> u8 {
    ((a - b + 256) % 256) as u8
}

/// Multiplication modulo 256.
pub open spec fn wrap_mul(a: u8, b: u8) -> u8 {
    ((a * b) % 256) as u8
}

/// Truncating division; a divisor of 0 yields 0 (documented policy).
pub open spec fn wrap_div(a: u8, b: u8) -> u8 {
    if b == 0 {
        0
    } else {
        (a / b) as u8
    }
}

/// Left shift by the amount reduced modulo 8; the result keeps the low
/// 8 bits (documented policy for over-width shift amounts).
pub open spec fn wrap_shl(a: u8, b: u8) -> u8 {
    a << (b % 8)
}

/// Right shift by the amount reduced modulo 8 (documented policy for
/// over-width shift amounts).
pub open spec fn wrap_shr(a: u8, b: u8) -> u8 {
    a >> (b % 8)
}

/// What a memory read observes: the stored value, or 0 for an address
/// that is absent from the snapshot.
pub open spec fn read_mem(mem: Map<u8, u8>, addr: u8) -> u8 {
    if mem.contains_key(addr) {
        mem[addr]
    } else {
        0
    }
}

/// The register file after applying one instruction.
pub open spec fn step_registers(inst: Instruction, regs: Seq<u8>, mem: Map<u8, u8>) -> Seq<u8> {
    match inst {
        Instruction::Add(a, b) => regs.update(
            reg_index(a),
            wrap_add(regs[reg_index(a)], regs[reg_index(b)]),
        ),
        Instruction::Sub(a, b) => regs.update(
            reg_index(a),
            wrap_sub(regs[reg_index(a)], regs[reg_index(b)]),
        ),
        Instruction::Mul(a, b) => regs.update(
            reg_index(a),
            wrap_mul(regs[reg_index(a)], regs[reg_index(b)]),
        ),
        Instruction::Div(a, b) => regs.update(
            reg_index(a),
            wrap_div(regs[reg_index(a)], regs[reg_index(b)]),
        ),
        Instruction::Shl(a, b) => regs.update(
            reg_index(a),
            wrap_shl(regs[reg_index(a)], regs[reg_index(b)]),
        ),
        Instruction::Shr(a, b) => regs.update(
            reg_index(a),
            wrap_shr(regs[reg_index(a)], regs[reg_index(b)]),
        ),
        Instruction::Jz(_, _) => regs,
        Instruction::Jnz(_, _) => regs,
        Instruction::Lb(r, loc) => regs.update(reg_index(r), read_mem(mem, loc.0)),
        Instruction::Sb(_, _) => regs,
        Instruction::Halt => regs,
    }
}

/// The memory after applying one instruction: only a store changes it,
/// inserting the entry if absent.
pub open spec fn step_memory(inst: Instruction, regs: Seq<u8>, mem: Map<u8, u8>) -> Map<u8, u8> {
    match inst {
        Instruction::Sb(r, loc) => mem.insert(loc.0, regs[reg_index(r)]),
        _ => mem,
    }
}

/// The program counter after applying one instruction: the next address
/// modulo 256, overridden by the absolute target of a taken conditional
/// jump.
pub open spec fn step_pc(inst: Instruction, regs: Seq<u8>, pc: u8) -> u8 {
    let fallthrough = wrap_add(pc, 1);
    match inst {
        Instruction::Jz(r, target) => if regs[reg_index(r)] == 0 {
            target.0
        } else {
            fallthrough
        },
        Instruction::Jnz(r, target) => if regs[reg_index(r)] != 0 {
            target.0
        } else {
            fallthrough
        },
        _ => fallthrough,
    }
}

/// One transition of the simulation: apply the current row's instruction,
/// look the next instruction up at the new program counter, and mark the
/// new row halted iff that instruction is `Halt`. `None` means the new
/// program counter has no instruction.
pub open spec fn step_row(code: Map<u8, Instruction>, r: RowModel) -> Option<RowModel> {
    let pc2 = step_pc(r.instruction, r.registers, r.program_counter);
    if code.contains_key(pc2) {
        Some(
            RowModel {
                instruction: code[pc2],
                clock: r.clock + 1,
                program_counter: pc2,
                is_halted: code[pc2] == Instruction::Halt,
                registers: step_registers(r.instruction, r.registers, r.memory),
                memory: step_memory(r.instruction, r.registers, r.memory),
            },
        )
    } else {
        None
    }
}

/// The first row of a run: clock 1, program counter at the entry point,
/// all registers zero, memory equal to the initial memory. `None` means
/// the entry point has no instruction.
pub open spec fn spec_first_row(p: Program) -> Option<RowModel> {
    if p.code@.contains_key(p.entry_point) {
        Some(
            RowModel {
                instruction: p.code@[p.entry_point],
                clock: 1,
                program_counter: p.entry_point,
                is_halted: false,
                registers: seq![0u8, 0u8],
                memory: p.memory_init@,
            },
        )
    } else {
        None
    }
}

/// Extends a non-empty row sequence step by step until a halted row
/// appears (success), a lookup fails (`InstructionNotFound`), or the
/// budget of remaining cycles runs out (`CycleLimitExceeded`).
pub open spec fn spec_run_from(
    code: Map<u8, Instruction>,
    rows: Seq<RowModel>,
    budget: nat,
) -> Result<Seq<RowModel>, SimulationError>
    recommends
        rows.len() > 0,
    decreases budget,
{
    if rows.last().is_halted {
        Ok(rows)
    } else if budget == 0 {
        Err(SimulationError::CycleLimitExceeded)
    } else {
        match step_row(code, rows.last()) {
            Some(r) => spec_run_from(code, rows.push(r), (budget - 1) as nat),
            None => Err(SimulationError::InstructionNotFound),
        }
    }
}

/// The row sequence (or error) that simulating a program must produce:
/// an empty program yields zero rows; otherwise the run starts from the
/// first row with a budget of `MAX_CPU_CYCLES_ALLOWED` further cycles.
pub open spec fn spec_simulate(p: Program) -> Result<Seq<RowModel>, SimulationError> {
    if p.code@.is_empty() {
        Ok(Seq::empty())
    } else {
        match spec_first_row(p) {
            Some(r0) => spec_run_from(p.code@, seq![r0], MAX_CPU_CYCLES_ALLOWED as nat),
            None => Err(SimulationError::InstructionNotFound),
        }
    }
}

/// Consecutive rows are linked by `step_row`, and only the last row may
/// be halted.
pub open spec fn rows_linked(code: Map<u8, Instruction>, rows: Seq<RowModel>) -> bool {
    forall|i: int|
        0 <= i < rows.len() - 1 ==> !(#[trigger] rows[i]).is_halted && step_row(code, rows[i])
            == Some(rows[i + 1])
}

/// Every row is internally consistent: its instruction is the one the
/// code map holds at its program counter, its register file is full-sized,
/// and its clock is its position plus 1.
pub open spec fn rows_wf(code: Map<u8, Instruction>, rows: Seq<RowModel>) -> bool {
    forall|i: int|
        0 <= i < rows.len() ==> {
            let r = #[trigger] rows[i];
            &&& code.contains_key(r.program_counter)
            &&& r.instruction == code[r.program_counter]
            &&& r.registers.len() == REGISTER_COUNT
            &&& r.clock == i + 1
        }
}

/// The view of a full simulation: the initial memory and the row models.
#[verifier::ext_equal]
pub struct SimulationModel {
    pub memory_init: Map<u8, u8>,
    pub rows: Seq<RowModel>,
}

/// One step of execution: the instruction executed at this row, the
/// clock (starting at 1), the program counter, whether execution halted
/// here, the full register file, and a full memory snapshot as of this
/// row.
#[derive(Debug)]
pub struct SimulationRow {
    /// The instruction executed during this row.
    pub instruction: Instruction,

    /// Clock cycle during execution; clock 0 is reserved for the memory
    /// initialization.
    pub clock: u32,

    /// Address of the program instruction.
    pub program_counter: u8,

    /// Whether at this row the execution halted. True only for the last
    /// row of a successful simulation.
    pub is_halted: bool,

    /// The register file as of this row.
    pub registers: [u8; REGISTER_COUNT],

    /// Full memory snapshot as of this row, not a delta.
    pub memory_snapshot: HashMap<u8, u8>,
}

impl View for SimulationRow {
    type V = RowModel;

    open spec fn view(&self) -> RowModel {
        RowModel {
            instruction: self.instruction,
            clock: self.clock as nat,
            program_counter: self.program_counter,
            is_halted: self.is_halted,
            registers: self.registers@,
            memory: self.memory_snapshot@,
        }
    }
}

/// Reads one register of the file.
fn reg_read(regs: &[u8; REGISTER_COUNT], r: Register) -> (v: u8)
    ensures
        v == regs@[reg_index(r)],
{
    regs[r.index()]
}

/// Addition modulo 256.
fn add_wrapped(a: u8, b: u8) -> (r: u8)
    ensures
        r == wrap_add(a, b),
{
    (((a as u16) + (b as u16)) % 256) as u8
}

/// Subtraction modulo 256.
fn sub_wrapped(a: u8, b: u8) -> (r: u8)
    ensures
        r == wrap_sub(a, b),
{
    (((a as u16) + 256 - (b as u16)) % 256) as u8
}

/// Multiplication modulo 256.
fn mul_wrapped(a: u8, b: u8) -> (r: u8)
    ensures
        r == wrap_mul(a, b),
{
    proof {
        assert((a as u16) * (b as u16) <= 255 * 255) by (nonlinear_arith)
            requires
                a <= 255,
                b <= 255,
        ;
    }
    (((a as u16) * (b as u16)) % 256) as u8
}

/// Truncating division; a divisor of 0 yields 0.
fn div_wrapped(a: u8, b: u8) -> (r: u8)
    ensures
        r == wrap_div(a, b),
{
    if b == 0 {
        0
    } else {
        a / b
    }
}

/// Left shift by the amount reduced modulo 8.
fn shl_wrapped(a: u8, b: u8) -> (r: u8)
    ensures
        r == wrap_shl(a, b),
{
    a << (b % 8)
}

/// Right shift by the amount reduced modulo 8.
fn shr_wrapped(a: u8, b: u8) -> (r: u8)
    ensures
        r == wrap_shr(a, b),
{
    a >> (b % 8)
}

impl SimulationRow {
    /// Builds the first row of a run: program counter at the entry point,
    /// clock 1, registers all zero, memory a full copy of the initial
    /// memory. Fails with `InstructionNotFound` if the entry point has no
    /// instruction.
    pub fn generate_first_row(prog: &Program) -> (r: Result<Self, SimulationError>)
        ensures
            match r {
                Ok(row) => spec_first_row(*prog) == Some(row@),
                Err(e) => {
                    &&& e == SimulationError::InstructionNotFound
                    &&& spec_first_row(*prog) is None
                },
            },
    {
        let program_counter = prog.entry_point;
        match prog.code.get(&program_counter) {
            Some(instruction) => {
                let row = SimulationRow {
                    instruction: *instruction,
                    clock: 1,  // 0 is reserved for memory init
                    program_counter,
                    is_halted: false,
                    registers: [0u8; REGISTER_COUNT],
                    memory_snapshot: prog.memory_init.clone(),
                };
                proof {
                    assert(row@.registers =~= seq![0u8, 0u8]);
                    assert(spec_first_row(*prog) == Some(row@));
                }
                Ok(row)
            },
            None => Err(SimulationError::InstructionNotFound),
        }
    }

    /// Derives the next row from this one: applies this row's instruction
    /// to a fresh copy of the register file and memory, computes the new
    /// program counter, looks the next instruction up there, and marks
    /// the new row halted iff that instruction is `Halt`.
    pub fn execute_one_cycle(&self, prog: &Program) -> (r: Result<Self, SimulationError>)
        requires
            self.clock < u32::MAX,
        ensures
            match r {
                Ok(row) => step_row(prog.code@, self@) == Some(row@),
                Err(e) => {
                    &&& e == SimulationError::InstructionNotFound
                    &&& step_row(prog.code@, self@) is None
                },
            },
    {
        // Mutable precisely because jump instructions override it; the
        // increment wraps modulo 256, the size of the address space.
        let mut program_counter = add_wrapped(self.program_counter, 1);
        let clock = self.clock + 1;

        let mut registers = self.registers;
        let mut memory_snapshot = self.memory_snapshot.clone();

        match self.instruction {
            Instruction::Add(a, b) => {
                let v = add_wrapped(reg_read(&registers, a), reg_read(&registers, b));
                registers[a.index()] = v;
            },
            Instruction::Sub(a, b) => {
                let v = sub_wrapped(reg_read(&registers, a), reg_read(&registers, b));
                registers[a.index()] = v;
            },
            Instruction::Mul(a, b) => {
                let v = mul_wrapped(reg_read(&registers, a), reg_read(&registers, b));
                registers[a.index()] = v;
            },
            Instruction::Div(a, b) => {
                let v = div_wrapped(reg_read(&registers, a), reg_read(&registers, b));
                registers[a.index()] = v;
            },
            Instruction::Shl(a, b) => {
                let v = shl_wrapped(reg_read(&registers, a), reg_read(&registers, b));
                registers[a.index()] = v;
            },
            Instruction::Shr(a, b) => {
                let v = shr_wrapped(reg_read(&registers, a), reg_read(&registers, b));
                registers[a.index()] = v;
            },
            Instruction::Jz(reg, instloc) => {
                if reg_read(&registers, reg) == 0 {
                    program_counter = instloc.0;
                }
            },
            Instruction::Jnz(reg, instloc) => {
                if reg_read(&registers, reg) != 0 {
                    program_counter = instloc.0;
                }
            },
            Instruction::Lb(reg, memloc) => {
                // Uninitialized memory reads as 0.
                let v = match self.memory_snapshot.get(&memloc.0) {
                    Some(x) => *x,
                    None => 0,
                };
                registers[reg.index()] = v;
            },
            Instruction::Sb(reg, memloc) => {
                let v = reg_read(&registers, reg);
                memory_snapshot.insert(memloc.0, v);
            },
            Instruction::Halt => {
                // A no-op.
            },
        }

        proof {
            assert(registers@ =~= step_registers(self.instruction, self@.registers, self@.memory));
            assert(memory_snapshot@ =~= step_memory(self.instruction, self@.registers, self@.memory));
            assert(program_counter == step_pc(self.instruction, self@.registers, self@.program_counter));
        }

        match prog.code.get(&program_counter) {
            Some(instruction) => {
                let is_halted = *instruction == Instruction::Halt;
                let row = SimulationRow {
                    instruction: *instruction,
                    clock,
                    program_counter,
                    is_halted,
                    registers,
                    memory_snapshot,
                };
                proof {
                    assert(step_row(prog.code@, self@) == Some(row@));
                }
                Ok(row)
            },
            None => Err(SimulationError::InstructionNotFound),
        }
    }

    /// The memory value this row's snapshot holds at an address, or
    /// `None` for an address absent from the snapshot.
    pub fn get_memory_at(&self, address: &u8) -> (r: Option<u8>)
        ensures
            match r {
                Some(v) => self@.memory.contains_key(*address) && v == self@.memory[*address],
                None => !self@.memory.contains_key(*address),
            },
    {
        match self.memory_snapshot.get(address) {
            Some(v) => Some(*v),
            None => None,
        }
    }

    /// A copy of the full register file of this row.
    pub fn get_registers(&self) -> (r: [u8; REGISTER_COUNT])
        ensures
            r@ == self@.registers,
    {
        self.registers
    }
}

/// Unconstrained preflight simulation of a program: the memory before the
/// program starts (clock 0) and the step-wise execution from clock 1.
#[derive(Debug)]
pub struct PreflightSimulation {
    /// Memory before starting the program, at clock 0.
    pub memory_init: HashMap<u8, u8>,
    /// Step-wise execution from clock 1.
    pub trace_rows: Vec<SimulationRow>,
}

/// The models of the rows of a simulation, in order.
pub open spec fn rows_model(rows: Seq<SimulationRow>) -> Seq<RowModel> {
    rows.map_values(|r: SimulationRow| r@)
}

impl View for PreflightSimulation {
    type V = SimulationModel;

    open spec fn view(&self) -> SimulationModel {
        SimulationModel {
            memory_init: self.memory_init@,
            rows: rows_model(self.trace_rows@),
        }
    }
}

impl PreflightSimulation {
    /// Simulates a program into a complete execution history.
    ///
    /// The result is exactly `spec_simulate`: an empty program succeeds
    /// with zero rows; otherwise the rows form a chain of `step_row`
    /// transitions from the first row, the last row and only the last row
    /// is halted, and failures are `InstructionNotFound` for a missing
    /// instruction and `CycleLimitExceeded` when the cycle cap is hit.
    pub fn simulate(prog: &Program) -> (r: Result<Self, SimulationError>)
        ensures
            match r {
                Ok(sim) => {
                    &&& Ok::<Seq<RowModel>, SimulationError>(sim@.rows) == spec_simulate(*prog)
                    &&& sim@.memory_init == prog.memory_init@
                    &&& rows_linked(prog.code@, sim@.rows)
                    &&& rows_wf(prog.code@, sim@.rows)
                    &&& sim@.rows.len() <= MAX_CPU_CYCLES_ALLOWED + 1
                    &&& sim@.rows.len() > 0 ==> sim@.rows.last().is_halted
                    &&& sim@.rows.len() == 0 ==> prog.code@.is_empty()
                    &&& sim@.rows.len() > 0 ==> spec_first_row(*prog) == Some(sim@.rows[0])
                },
                Err(e) => Err::<Seq<RowModel>, SimulationError>(e) == spec_simulate(*prog),
            },
    {
        if prog.code.is_empty() {
            let sim = PreflightSimulation {
                memory_init: prog.memory_init.clone(),
                trace_rows: Vec::new(),
            };
            proof {
                assert(sim@.rows =~= Seq::<RowModel>::empty());
            }
            return Ok(sim);
        }
        let first_row = match SimulationRow::generate_first_row(prog) {
            Ok(row) => row,
            Err(e) => {
                return Err(e);
            },
        };
        let mut trace_rows: Vec<SimulationRow> = Vec::new();
        trace_rows.push(first_row);
        proof {
            assert(rows_model(trace_rows@) =~= seq![first_row@]);
        }

        while trace_rows.len() <= MAX_CPU_CYCLES_ALLOWED && !trace_rows[trace_rows.len()
            - 1].is_halted
            invariant
                1 <= trace_rows.len() <= MAX_CPU_CYCLES_ALLOWED + 1,
                !prog.code@.is_empty(),
                spec_first_row(*prog) == Some(rows_model(trace_rows@)[0]),
                rows_linked(prog.code@, rows_model(trace_rows@)),
                rows_wf(prog.code@, rows_model(trace_rows@)),
                spec_simulate(*prog) == spec_run_from(
                    prog.code@,
                    rows_model(trace_rows@),
                    (MAX_CPU_CYCLES_ALLOWED + 1 - trace_rows.len()) as nat,
                ),
            decreases MAX_CPU_CYCLES_ALLOWED + 1 - trace_rows.len(),
        {
            let ghost prev_models = rows_model(trace_rows@);
            let last = trace_rows.len() - 1;
            assert(trace_rows[last as int]@ == prev_models[last as int]);
            let current_row = match trace_rows[last].execute_one_cycle(prog) {
                Ok(row) => row,
                Err(e) => {
                    proof {
                        assert(spec_run_from(
                            prog.code@,
                            prev_models,
                            (MAX_CPU_CYCLES_ALLOWED + 1 - trace_rows.len()) as nat,
                        ) == Err::<Seq<RowModel>, SimulationError>(
                            SimulationError::InstructionNotFound,
                        ));
                    }
                    return Err(e);
                },
            };
            trace_rows.push(current_row);
            proof {
                assert(rows_model(trace_rows@) =~= prev_models.push(current_row@));
                assert(rows_model(trace_rows@).last() == current_row@);
            }
        }

        if !trace_rows[trace_rows.len() - 1].is_halted {
            proof {
                assert(trace_rows.len() == MAX_CPU_CYCLES_ALLOWED + 1);
                assert(!rows_model(trace_rows@).last().is_halted);
            }
            return Err(SimulationError::CycleLimitExceeded);
        }

        proof {
            assert(rows_model(trace_rows@).last().is_halted);
        }
        let sim = PreflightSimulation {
            memory_init: prog.memory_init.clone(),
            trace_rows,
        };
        Ok(sim)
    }
}

/// Determinism: any two row sequences that simulation of the same program
/// can produce are identical.
pub proof fn lemma_simulate_deterministic(
    p: Program,
    r1: Result<Seq<RowModel>, SimulationError>,
    r2: Result<Seq<RowModel>, SimulationError>,
)
    requires
        r1 == spec_simulate(p),
        r2 == spec_simulate(p),
    ensures
        r1 == r2,
{
}

/// Halting monotonicity: in a successful, non-empty simulation exactly
/// the last row is halted.
pub proof fn lemma_halting_monotonic(code: Map<u8, Instruction>, rows: Seq<RowModel>)
    requires
        rows_linked(code, rows),
        rows.len() > 0,
        rows.last().is_halted,
    ensures
        forall|i: int| 0 <= i < rows.len() ==> ((#[trigger] rows[i]).is_halted <==> i == rows.len() - 1),
{
}

/// Whether an instruction stores to the given address.
pub open spec fn stores_to(inst: Instruction, addr: u8) -> bool {
    match inst {
        Instruction::Sb(_, loc) => loc.0 == addr,
        _ => false,
    }
}

/// Memory-zero default: an address that is absent from the initial memory
/// and that no row's instruction stores to stays absent from every row's
/// snapshot, so reading it always observes 0.
pub proof fn lemma_memory_zero_default(
    code: Map<u8, Instruction>,
    rows: Seq<RowModel>,
    mem_init: Map<u8, u8>,
    addr: u8,
)
    requires
        rows_linked(code, rows),
        rows.len() > 0 ==> rows[0].memory == mem_init,
        !mem_init.contains_key(addr),
        forall|i: int| 0 <= i < rows.len() ==> !stores_to((#[trigger] rows[i]).instruction, addr),
    ensures
        forall|i: int|
            0 <= i < rows.len() ==> !(#[trigger] rows[i]).memory.contains_key(addr) && read_mem(
                rows[i].memory,
                addr,
            ) == 0,
    decreases rows.len(),
{
    if rows.len() > 0 {
        let head = rows.subrange(0, rows.len() - 1);
        if rows.len() > 1 {
            assert(rows_linked(code, head)) by {
                assert forall|i: int| 0 <= i < head.len() - 1 implies !(#[trigger] head[i]).is_halted
                    && step_row(code, head[i]) == Some(head[i + 1]) by {
                    assert(head[i] == rows[i]);
                    assert(head[i + 1] == rows[i + 1]);
                }
            }
            lemma_memory_zero_default(code, head, mem_init, addr);
            let n = rows.len() - 1;
            assert(step_row(code, rows[n - 1]) == Some(rows[n]));
            assert(rows[n].memory == step_memory(
                rows[n - 1].instruction,
                rows[n - 1].registers,
                rows[n - 1].memory,
            ));
            assert(!stores_to(rows[n - 1].instruction, addr));
            assert(head[n - 1] == rows[n - 1]);
            assert(!rows[n].memory.contains_key(addr));
            assert forall|i: int| 0 <= i < rows.len() implies !(#[trigger] rows[i]).memory.contains_key(
                addr,
            ) && read_mem(rows[i].memory, addr) == 0 by {
                if i < n {
                    assert(head[i] == rows[i]);
                }
            }
        }
    }
}

/// A program whose instruction at address 0 is an unconditional self-jump
/// (`Jz R0 -> 0` with `R0` never written) runs the cycle budget out: the
/// simulation fails with `CycleLimitExceeded`, it never hangs.
pub proof fn lemma_self_jump_exceeds_cycle_limit(p: Program)
    requires
        p.entry_point == 0,
        p.code@.contains_key(0),
        p.code@[0] == Instruction::Jz(Register::R0, crate::vm_specs::InstructionLocation(0)),
    ensures
        spec_simulate(p) == Err::<Seq<RowModel>, SimulationError>(
            SimulationError::CycleLimitExceeded,
        ),
{
    assert(!p.code@.is_empty()) by {
        assert(p.code@.dom().contains(0));
    }
    let r0 = spec_first_row(p).unwrap();
    lemma_self_jump_spin(p.code@, seq![r0], MAX_CPU_CYCLES_ALLOWED as nat);
}

/// Helper for the cycle-bound law: from any state spinning on the
/// self-jump at address 0, every remaining budget is exhausted.
proof fn lemma_self_jump_spin(code: Map<u8, Instruction>, rows: Seq<RowModel>, budget: nat)
    requires
        rows.len() > 0,
        code.contains_key(0),
        code[0] == Instruction::Jz(Register::R0, crate::vm_specs::InstructionLocation(0)),
        rows.last().instruction == code[0],
        rows.last().registers.len() == REGISTER_COUNT,
        rows.last().registers[0] == 0,
        !rows.last().is_halted,
    ensures
        spec_run_from(code, rows, budget) == Err::<Seq<RowModel>, SimulationError>(
            SimulationError::CycleLimitExceeded,
        ),
    decreases budget,
{
    if budget > 0 {
        let last = rows.last();
        let next = step_row(code, last).unwrap();
        assert(step_pc(last.instruction, last.registers, last.program_counter) == 0);
        assert(next.registers == last.registers);
        assert(!next.is_halted);
        lemma_self_jump_spin(code, rows.push(next), (budget - 1) as nat);
        assert(rows.push(next).last() == next);
    }
}

} // verus!
