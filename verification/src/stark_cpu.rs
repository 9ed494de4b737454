//! The dynamic "CPU" table: an encoding of all the execution seen at the
//! CPU, one row per simulation row. It is linked to the static program
//! listing by a cross-table lookup on (address, opcode), and to the
//! memory ledger on (address, clock, value).

use vstd::prelude::*;

use crate::preflight_simulator::{PreflightSimulation, RowModel};
use crate::table::{finish_table, Table};
use crate::vm_specs::{opcode, operand_address, Instruction, OPCODE_COUNT};

verus! {

broadcast use vstd::array::group_array_axioms;

// Table description:
// +-----+----+--------+--------+----------+---------+-------------+
// | Clk | PC | Reg R0 | Reg R1 | Location | Opcode* | Is_Executed |
// +-----+----+--------+--------+----------+---------+-------------+
//
// `Opcode*` is the opcode one-hot encoded: one boolean column per opcode,
// exactly one of them set on every real row.
/// Columns before the one-hot block: clock, program counter, both
/// registers, and the operand address.
pub const NUM_DYNAMIC_COLS: usize = 5;

/// Total number of columns: the dynamic columns, the one-hot opcode
/// block, and the is-executed filter.
pub const NUMBER_OF_COLS: usize = NUM_DYNAMIC_COLS + OPCODE_COUNT + 1;

/// The one-hot encoding of an opcode: cell `k` is 1 exactly when the
/// opcode index is `k`.
pub open spec fn one_hot(op: u8) -> Seq<u64> {
    Seq::new(OPCODE_COUNT as nat, |k: int| if op == k { 1u64 } else { 0u64 })
}

/// The CPU-table row of one simulation row: clock, program counter,
/// registers, operand address, the one-hot opcode block, and the
/// is-executed filter set to 1.
pub open spec fn cpu_row(r: RowModel) -> Seq<u64> {
    seq![
        r.clock as u64,
        r.program_counter as u64,
        r.registers[0] as u64,
        r.registers[1] as u64,
        operand_address(r.instruction) as u64,
    ] + one_hot(opcode(r.instruction)) + seq![1u64]
}

/// The semantic rows of the CPU table: one per simulation row, in order.
pub open spec fn cpu_rows(rows: Seq<RowModel>) -> Seq<Seq<u64>> {
    rows.map_values(|r: RowModel| cpu_row(r))
}

/// The dynamic CPU-trace table generator.
#[derive(Clone, Copy)]
pub struct CPUStark {}

impl CPUStark {
    /// A fresh generator.
    pub fn new() -> (s: Self) {
        CPUStark {  }
    }

    /// One row per simulation row, in execution order, padded with
    /// all-zero rows to the next power-of-two row count.
    pub fn generate_trace(sim: &PreflightSimulation) -> (t: Table)
        requires
            sim.trace_rows@.len() <= 0x1000_0000,
        ensures
            t.wf(),
            t.width == NUMBER_OF_COLS,
            t.is_padded(cpu_rows(sim@.rows)),
    {
        let mut rows: Vec<Vec<u64>> = Vec::new();
        let mut i: usize = 0;
        while i < sim.trace_rows.len()
            invariant
                i <= sim.trace_rows@.len() <= 0x1000_0000,
                rows@.len() == i,
                forall|j: int| 0 <= j < i ==> (#[trigger] rows@[j])@ == cpu_rows(sim@.rows)[j],
                forall|j: int| 0 <= j < i ==> (#[trigger] rows@[j])@.len() == NUMBER_OF_COLS,
            decreases sim.trace_rows@.len() - i,
        {
            let row = &sim.trace_rows[i];
            let mut v: Vec<u64> = Vec::new();
            v.push(row.clock as u64);
            v.push(row.program_counter as u64);
            v.push(row.registers[0] as u64);
            v.push(row.registers[1] as u64);
            let loc = match row.instruction {
                Instruction::Jz(_, l) => l.0,
                Instruction::Jnz(_, l) => l.0,
                Instruction::Lb(_, l) => l.0,
                Instruction::Sb(_, l) => l.0,
                _ => 0,
            };
            v.push(loc as u64);
            let op = row.instruction.get_opcode();
            let ghost prefix = v@;
            let mut k: usize = 0;
            while k < OPCODE_COUNT
                invariant
                    k <= OPCODE_COUNT,
                    prefix.len() == NUM_DYNAMIC_COLS,
                    v@.len() == NUM_DYNAMIC_COLS + k,
                    forall|j: int| 0 <= j < NUM_DYNAMIC_COLS ==> v@[j] == prefix[j],
                    forall|j: int| 0 <= j < k ==> v@[NUM_DYNAMIC_COLS + j] == one_hot(op)[j],
                decreases OPCODE_COUNT - k,
            {
                if op == k as u8 {
                    v.push(1);
                } else {
                    v.push(0);
                }
                k = k + 1;
            }
            v.push(1);
            proof {
                assert(sim@.rows[i as int] == sim.trace_rows@[i as int]@);
                assert(prefix =~= seq![
                    row.clock as u64,
                    row.program_counter as u64,
                    row.registers@[0] as u64,
                    row.registers@[1] as u64,
                    operand_address(row.instruction) as u64,
                ]);
                assert(v@ =~= cpu_row(sim@.rows[i as int]));
            }
            rows.push(v);
            i = i + 1;
        }
        proof {
            assert(rows@.map_values(|r: Vec<u64>| r@) =~= cpu_rows(sim@.rows));
        }
        finish_table(rows, NUMBER_OF_COLS)
    }
}

} // verus!
