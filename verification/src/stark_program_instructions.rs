//! The static "Program" table: an encoding of the resting code,
//! independent of execution order or repetition. It is the static part of
//! the proof; the dynamic CPU trace is linked to it by a cross-table
//! lookup on (address, opcode).

use vstd::prelude::*;

use crate::table::{finish_table, Table};
use crate::vm_specs::{opcode, Instruction, Program};

verus! {

broadcast use vstd::std_specs::hash::group_hash_axioms;

// Table description:
// +----+--------+---------+
// | PC | Opcode | Filter  |
// +----+--------+---------+
/// Number of columns: program counter, opcode index, is-real-row filter.
pub const NUMBER_OF_COLS: usize = 3;

/// The typed column layout of one program-table row.
pub struct ProgramInstructions<T> {
    /// Address of the instruction.
    pub program_counter: T,
    /// The instruction's opcode index.
    pub instruction_data: T,
    /// 1 on real rows, 0 on padding.
    pub filter: T,
}

/// The table row of one (address, instruction) pair of the code map.
pub open spec fn program_row(addr: u8, inst: Instruction) -> Seq<u64> {
    seq![addr as u64, opcode(inst) as u64, 1u64]
}

/// The rows of all code-map entries with address below `k`, in ascending
/// address order.
pub open spec fn program_rows_upto(code: Map<u8, Instruction>, k: int) -> Seq<Seq<u64>>
    decreases k,
{
    if k <= 0 {
        Seq::empty()
    } else {
        program_rows_upto(code, k - 1) + if code.contains_key((k - 1) as u8) {
            seq![program_row((k - 1) as u8, code[(k - 1) as u8])]
        } else {
            Seq::empty()
        }
    }
}

/// The semantic rows of the program table: one row per (address,
/// instruction) pair present in the code map.
pub open spec fn program_rows(code: Map<u8, Instruction>) -> Seq<Seq<u64>> {
    program_rows_upto(code, 256)
}

/// The static program-listing table generator.
pub struct ProgramInstructionsStark {}

impl ProgramInstructionsStark {
    /// A fresh generator.
    pub fn new() -> (s: Self) {
        ProgramInstructionsStark {  }
    }

    /// One row per (address, instruction) pair present in the program's
    /// code map, in ascending address order, padded with all-zero rows
    /// to the next power-of-two row count.
    pub fn generate_trace(prog: &Program) -> (t: Table)
        ensures
            t.wf(),
            t.width == NUMBER_OF_COLS,
            t.is_padded(program_rows(prog.code@)),
    {
        let mut rows: Vec<Vec<u64>> = Vec::new();
        let mut a: usize = 0;
        while a < 256
            invariant
                a <= 256,
                rows@.len() <= a,
                rows@.map_values(|r: Vec<u64>| r@) == program_rows_upto(prog.code@, a as int),
                forall|i: int| 0 <= i < rows@.len() ==> (#[trigger] rows@[i])@.len()
                    == NUMBER_OF_COLS,
            decreases 256 - a,
        {
            let ghost prev = rows@.map_values(|r: Vec<u64>| r@);
            let addr = a as u8;
            match prog.code.get(&addr) {
                Some(inst) => {
                    let mut row: Vec<u64> = Vec::new();
                    row.push(addr as u64);
                    row.push(inst.get_opcode() as u64);
                    row.push(1);
                    proof {
                        assert(row@ =~= program_row(addr, prog.code@[addr]));
                    }
                    rows.push(row);
                    proof {
                        assert(rows@.map_values(|r: Vec<u64>| r@) =~= prev + seq![
                            program_row(addr, prog.code@[addr]),
                        ]);
                    }
                },
                None => {
                    proof {
                        assert(rows@.map_values(|r: Vec<u64>| r@) =~= prev + Seq::<
                            Seq<u64>,
                        >::empty());
                    }
                },
            }
            a = a + 1;
        }
        finish_table(rows, NUMBER_OF_COLS)
    }
}

/// Whether a table row is the listing row of some code-map address
/// below `k`.
pub open spec fn is_row_of_code(code: Map<u8, Instruction>, row: Seq<u64>, k: int) -> bool {
    exists|a: u8| a < k && code.contains_key(a) && row == #[trigger] program_row(a, code[a])
}

/// Shape of the program listing: every row is the row of an address the
/// code map contains, rows carry their address in the first cell, and
/// addresses strictly increase down the table (so no address repeats).
pub proof fn lemma_program_rows_shape(code: Map<u8, Instruction>, k: int)
    requires
        0 <= k <= 256,
    ensures
        forall|j: int|
            0 <= j < program_rows_upto(code, k).len() ==> is_row_of_code(
                code,
                #[trigger] program_rows_upto(code, k)[j],
                k,
            ),
        forall|j1: int, j2: int|
            0 <= j1 < j2 < program_rows_upto(code, k).len() ==> program_rows_upto(code, k)[j1][0]
                < program_rows_upto(code, k)[j2][0],
    decreases k,
{
    if k > 0 {
        lemma_program_rows_shape(code, k - 1);
        let prev = program_rows_upto(code, k - 1);
        let cur = program_rows_upto(code, k);
        if code.contains_key((k - 1) as u8) {
            assert(cur == prev + seq![program_row((k - 1) as u8, code[(k - 1) as u8])]);
            assert forall|j: int| 0 <= j < cur.len() implies is_row_of_code(
                code,
                #[trigger] cur[j],
                k,
            ) by {
                if j < prev.len() {
                    assert(cur[j] == prev[j]);
                    assert(is_row_of_code(code, prev[j], k - 1));
                    let a = choose|a: u8|
                        a < k - 1 && code.contains_key(a) && prev[j] == program_row(a, code[a]);
                    assert(a < k && code.contains_key(a) && cur[j] == program_row(a, code[a]));
                } else {
                    let a = (k - 1) as u8;
                    assert(a < k && code.contains_key(a) && cur[j] == program_row(a, code[a]));
                }
            }
            assert forall|j1: int, j2: int| 0 <= j1 < j2 < cur.len() implies cur[j1][0]
                < cur[j2][0] by {
                if j2 < prev.len() {
                    assert(cur[j1] == prev[j1] && cur[j2] == prev[j2]);
                } else {
                    assert(cur[j2] == program_row((k - 1) as u8, code[(k - 1) as u8]));
                    assert(cur[j1] == prev[j1]);
                    assert(is_row_of_code(code, prev[j1], k - 1));
                    let a = choose|a: u8|
                        a < k - 1 && code.contains_key(a) && prev[j1] == program_row(a, code[a]);
                    assert(cur[j1][0] == a as u64);
                    assert(cur[j2][0] == (k - 1) as u64);
                }
            }
        } else {
            assert(cur =~= prev);
            assert forall|j: int| 0 <= j < cur.len() implies is_row_of_code(
                code,
                #[trigger] cur[j],
                k,
            ) by {
                assert(is_row_of_code(code, prev[j], k - 1));
                let a = choose|a: u8|
                    a < k - 1 && code.contains_key(a) && prev[j] == program_row(a, code[a]);
                assert(a < k && code.contains_key(a) && cur[j] == program_row(a, code[a]));
            }
        }
    }
}

/// Completeness of the program listing: every address the code map
/// contains below `k` has its row in the listing.
pub proof fn lemma_program_rows_complete(code: Map<u8, Instruction>, k: int, a: u8)
    requires
        0 <= k <= 256,
        a < k,
        code.contains_key(a),
    ensures
        exists|j: int|
            0 <= j < program_rows_upto(code, k).len() && #[trigger] program_rows_upto(code, k)[j]
                == program_row(a, code[a]),
    decreases k,
{
    let prev = program_rows_upto(code, k - 1);
    let cur = program_rows_upto(code, k);
    if a == k - 1 {
        let j = prev.len() as int;
        assert(cur[j] == program_row(a, code[a]));
    } else {
        lemma_program_rows_complete(code, k - 1, a);
        let j = choose|j: int| 0 <= j < prev.len() && prev[j] == program_row(a, code[a]);
        assert(cur[j] == program_row(a, code[a]));
    }
}

} // verus!
