//! The dynamic "Memory" table: a complete ledger of memory accesses.
//! One initial row per address present in the initial memory (clock 0),
//! plus one row per load/store event encountered while scanning the
//! simulation rows. It is linked to the CPU trace by a cross-table
//! lookup on (address, clock, value).

use vstd::prelude::*;

use crate::preflight_simulator::{read_mem, PreflightSimulation, RowModel};
use crate::table::{finish_table, Table};
use crate::vm_specs::{operand_address, reg_index, Instruction};

verus! {

broadcast use {vstd::std_specs::hash::group_hash_axioms, vstd::array::group_array_axioms};

// Table description:
// +---------------+-------+-------+-------+-------+---------+-------------+
// | MemoryAddress | Clock | Value | Is_LB | Is_SB | Is_Init | Is_Executed |
// +---------------+-------+-------+-------+-------+---------+-------------+
/// Number of columns of the memory ledger.
pub const NUMBER_OF_COLS: usize = 7;

/// The ledger row of one initial-memory entry: present from clock 0
/// onward, tagged is-init and is-executed.
pub open spec fn mem_init_row(addr: u8, value: u8) -> Seq<u64> {
    seq![addr as u64, 0u64, value as u64, 0u64, 0u64, 1u64, 1u64]
}

/// The rows of all initial-memory entries with address below `k`, in
/// ascending address order.
pub open spec fn mem_init_rows_upto(mem: Map<u8, u8>, k: int) -> Seq<Seq<u64>>
    decreases k,
{
    if k <= 0 {
        Seq::empty()
    } else {
        mem_init_rows_upto(mem, k - 1) + if mem.contains_key((k - 1) as u8) {
            seq![mem_init_row((k - 1) as u8, mem[(k - 1) as u8])]
        } else {
            Seq::empty()
        }
    }
}

/// Whether an instruction is a memory access (load or store).
pub open spec fn is_mem_op(inst: Instruction) -> bool {
    match inst {
        Instruction::Lb(_, _) => true,
        Instruction::Sb(_, _) => true,
        _ => false,
    }
}

/// The memory value observed by a memory access: the value a load reads
/// (0 for an absent address), or the register value a store writes.
pub open spec fn mem_access_value(r: RowModel) -> u8 {
    match r.instruction {
        Instruction::Lb(_, loc) => read_mem(r.memory, loc.0),
        Instruction::Sb(reg, _) => r.registers[reg_index(reg)],
        _ => 0,
    }
}

/// The ledger row of one load/store event: the accessed address, the
/// clock of the row that accesses it, the value observed, and the
/// is-lb/is-sb tag.
pub open spec fn mem_event_row(r: RowModel) -> Seq<u64> {
    seq![
        operand_address(r.instruction) as u64,
        r.clock as u64,
        mem_access_value(r) as u64,
        if r.instruction matches Instruction::Lb(_, _) {
            1u64
        } else {
            0u64
        },
        if r.instruction matches Instruction::Sb(_, _) {
            1u64
        } else {
            0u64
        },
        0u64,
        1u64,
    ]
}

/// The event rows of all load/store instructions among the first `k`
/// simulation rows, in execution order.
pub open spec fn mem_event_rows_upto(rows: Seq<RowModel>, k: int) -> Seq<Seq<u64>>
    decreases k,
{
    if k <= 0 {
        Seq::empty()
    } else {
        mem_event_rows_upto(rows, k - 1) + if is_mem_op(rows[k - 1].instruction) {
            seq![mem_event_row(rows[k - 1])]
        } else {
            Seq::empty()
        }
    }
}

/// The semantic rows of the memory ledger: the initial-memory rows
/// followed by the load/store event rows.
pub open spec fn memory_rows(mem_init: Map<u8, u8>, rows: Seq<RowModel>) -> Seq<Seq<u64>> {
    mem_init_rows_upto(mem_init, 256) + mem_event_rows_upto(rows, rows.len() as int)
}

/// The dynamic memory-ledger table generator.
#[derive(Clone, Copy)]
pub struct MemoryStark {}

impl MemoryStark {
    /// A fresh generator.
    pub fn new() -> (s: Self) {
        MemoryStark {  }
    }

    /// The full memory ledger of one simulation: initial-memory rows,
    /// then one row per load/store event, padded with all-zero rows to
    /// the next power-of-two row count.
    pub fn generate_trace(sim: &PreflightSimulation) -> (t: Table)
        requires
            sim.trace_rows@.len() <= 0x100_0000,
        ensures
            t.wf(),
            t.width == NUMBER_OF_COLS,
            t.is_padded(memory_rows(sim@.memory_init, sim@.rows)),
    {
        let mut rows: Vec<Vec<u64>> = Vec::new();
        let mut a: usize = 0;
        while a < 256
            invariant
                a <= 256,
                rows@.len() <= a,
                rows@.map_values(|r: Vec<u64>| r@) == mem_init_rows_upto(
                    sim.memory_init@,
                    a as int,
                ),
                forall|i: int| 0 <= i < rows@.len() ==> (#[trigger] rows@[i])@.len()
                    == NUMBER_OF_COLS,
            decreases 256 - a,
        {
            let ghost prev = rows@.map_values(|r: Vec<u64>| r@);
            let addr = a as u8;
            match sim.memory_init.get(&addr) {
                Some(value) => {
                    let mut row: Vec<u64> = Vec::new();
                    row.push(addr as u64);
                    row.push(0);
                    row.push(*value as u64);
                    row.push(0);
                    row.push(0);
                    row.push(1);
                    row.push(1);
                    proof {
                        assert(row@ =~= mem_init_row(addr, sim.memory_init@[addr]));
                    }
                    rows.push(row);
                    proof {
                        assert(rows@.map_values(|r: Vec<u64>| r@) =~= prev + seq![
                            mem_init_row(addr, sim.memory_init@[addr]),
                        ]);
                    }
                },
                None => {
                    proof {
                        assert(rows@.map_values(|r: Vec<u64>| r@) =~= prev + Seq::<
                            Seq<u64>,
                        >::empty());
                    }
                },
            }
            a = a + 1;
        }

        let ghost init_rows = rows@.map_values(|r: Vec<u64>| r@);
        let mut i: usize = 0;
        while i < sim.trace_rows.len()
            invariant
                i <= sim.trace_rows@.len() <= 0x100_0000,
                rows@.len() <= 256 + i,
                rows@.map_values(|r: Vec<u64>| r@) == init_rows + mem_event_rows_upto(
                    sim@.rows,
                    i as int,
                ),
                forall|j: int| 0 <= j < rows@.len() ==> (#[trigger] rows@[j])@.len()
                    == NUMBER_OF_COLS,
            decreases sim.trace_rows@.len() - i,
        {
            let ghost prev = rows@.map_values(|r: Vec<u64>| r@);
            let row = &sim.trace_rows[i];
            proof {
                assert(sim@.rows[i as int] == sim.trace_rows@[i as int]@);
            }
            match row.instruction {
                Instruction::Lb(_, memloc) => {
                    let addr = memloc.0;
                    // Uninitialized memory reads as 0.
                    let value = match row.memory_snapshot.get(&addr) {
                        Some(x) => *x,
                        None => 0,
                    };
                    let mut v: Vec<u64> = Vec::new();
                    v.push(addr as u64);
                    v.push(row.clock as u64);
                    v.push(value as u64);
                    v.push(1);
                    v.push(0);
                    v.push(0);
                    v.push(1);
                    proof {
                        assert(v@ =~= mem_event_row(sim@.rows[i as int]));
                    }
                    rows.push(v);
                    proof {
                        assert(rows@.map_values(|r: Vec<u64>| r@) =~= prev + seq![
                            mem_event_row(sim@.rows[i as int]),
                        ]);
                    }
                },
                Instruction::Sb(reg, memloc) => {
                    let addr = memloc.0;
                    let value = row.registers[reg.index()];
                    let mut v: Vec<u64> = Vec::new();
                    v.push(addr as u64);
                    v.push(row.clock as u64);
                    v.push(value as u64);
                    v.push(0);
                    v.push(1);
                    v.push(0);
                    v.push(1);
                    proof {
                        assert(v@ =~= mem_event_row(sim@.rows[i as int]));
                    }
                    rows.push(v);
                    proof {
                        assert(rows@.map_values(|r: Vec<u64>| r@) =~= prev + seq![
                            mem_event_row(sim@.rows[i as int]),
                        ]);
                    }
                },
                _ => {
                    proof {
                        assert(rows@.map_values(|r: Vec<u64>| r@) =~= prev + Seq::<
                            Seq<u64>,
                        >::empty());
                    }
                },
            }
            i = i + 1;
        }
        proof {
            assert(rows@.map_values(|r: Vec<u64>| r@) == memory_rows(sim@.memory_init, sim@.rows));
        }
        finish_table(rows, NUMBER_OF_COLS)
    }
}

/// Shape of the initial-memory rows: full width, clock 0, and the
/// load/store tags cleared, so an initial row never matches a load/store
/// event on the clock cell.
pub proof fn lemma_mem_init_rows_shape(mem: Map<u8, u8>, k: int)
    requires
        0 <= k <= 256,
    ensures
        forall|j: int|
            0 <= j < mem_init_rows_upto(mem, k).len() ==> {
                let r = #[trigger] mem_init_rows_upto(mem, k)[j];
                r.len() == NUMBER_OF_COLS && r[1] == 0 && r[3] == 0 && r[4] == 0
            },
    decreases k,
{
    if k > 0 {
        lemma_mem_init_rows_shape(mem, k - 1);
        let prev = mem_init_rows_upto(mem, k - 1);
        let cur = mem_init_rows_upto(mem, k);
        assert forall|j: int| 0 <= j < cur.len() implies {
            let r = #[trigger] cur[j];
            r.len() == NUMBER_OF_COLS && r[1] == 0 && r[3] == 0 && r[4] == 0
        } by {
            if j < prev.len() {
                assert(cur[j] == prev[j]);
            } else {
                assert(cur[j] == mem_init_row((k - 1) as u8, mem[(k - 1) as u8]));
            }
        }
    }
}

/// Whether a ledger row is the event row of some load/store among the
/// first `k` simulation rows.
pub open spec fn is_event_of(rows: Seq<RowModel>, row: Seq<u64>, k: int) -> bool {
    exists|l: int|
        0 <= l < k && is_mem_op(rows[l].instruction) && row == #[trigger] mem_event_row(rows[l])
}

/// Shape of the event rows: every one is the event row of some earlier
/// load/store, and their clock cells strictly increase down the table
/// (each simulation row contributes at most one event, and clocks grow
/// with the row position).
pub proof fn lemma_mem_event_rows_shape(rows: Seq<RowModel>, k: int)
    requires
        0 <= k <= rows.len(),
        rows.len() <= 0x100_0000,
        forall|i: int| 0 <= i < rows.len() ==> (#[trigger] rows[i]).clock == i + 1,
    ensures
        forall|j: int|
            0 <= j < mem_event_rows_upto(rows, k).len() ==> is_event_of(
                rows,
                #[trigger] mem_event_rows_upto(rows, k)[j],
                k,
            ),
        forall|j1: int, j2: int|
            0 <= j1 < j2 < mem_event_rows_upto(rows, k).len() ==> mem_event_rows_upto(
                rows,
                k,
            )[j1][1] < mem_event_rows_upto(rows, k)[j2][1],
    decreases k,
{
    if k > 0 {
        lemma_mem_event_rows_shape(rows, k - 1);
        let prev = mem_event_rows_upto(rows, k - 1);
        let cur = mem_event_rows_upto(rows, k);
        if is_mem_op(rows[k - 1].instruction) {
            assert(cur == prev + seq![mem_event_row(rows[k - 1])]);
            assert forall|j: int| 0 <= j < cur.len() implies is_event_of(
                rows,
                #[trigger] cur[j],
                k,
            ) by {
                if j < prev.len() {
                    assert(cur[j] == prev[j]);
                    assert(is_event_of(rows, prev[j], k - 1));
                    let l = choose|l: int|
                        0 <= l < k - 1 && is_mem_op(rows[l].instruction) && prev[j]
                            == mem_event_row(rows[l]);
                    assert(0 <= l < k && is_mem_op(rows[l].instruction) && cur[j]
                        == mem_event_row(rows[l]));
                } else {
                    let l = k - 1;
                    assert(0 <= l < k && is_mem_op(rows[l].instruction) && cur[j]
                        == mem_event_row(rows[l]));
                }
            }
            assert forall|j1: int, j2: int| 0 <= j1 < j2 < cur.len() implies cur[j1][1]
                < cur[j2][1] by {
                if j2 < prev.len() {
                    assert(cur[j1] == prev[j1] && cur[j2] == prev[j2]);
                } else {
                    assert(cur[j2] == mem_event_row(rows[k - 1]));
                    assert(cur[j1] == prev[j1]);
                    assert(is_event_of(rows, prev[j1], k - 1));
                    let l = choose|l: int|
                        0 <= l < k - 1 && is_mem_op(rows[l].instruction) && prev[j1]
                            == mem_event_row(rows[l]);
                    assert(cur[j1][1] == rows[l].clock as u64);
                    assert(cur[j2][1] == rows[k - 1].clock as u64);
                    assert(rows[l].clock == l + 1);
                    assert(rows[k - 1].clock == k);
                }
            }
        } else {
            assert(cur =~= prev);
            assert forall|j: int| 0 <= j < cur.len() implies is_event_of(
                rows,
                #[trigger] cur[j],
                k,
            ) by {
                assert(is_event_of(rows, prev[j], k - 1));
                let l = choose|l: int|
                    0 <= l < k - 1 && is_mem_op(rows[l].instruction) && prev[j] == mem_event_row(
                        rows[l],
                    );
                assert(0 <= l < k && is_mem_op(rows[l].instruction) && cur[j] == mem_event_row(
                    rows[l],
                ));
            }
        }
    }
}

/// Completeness of the event rows: every load/store among the first `k`
/// simulation rows has its event row in the ledger.
pub proof fn lemma_mem_event_rows_complete(rows: Seq<RowModel>, k: int, i: int)
    requires
        0 <= i < k <= rows.len(),
        is_mem_op(rows[i].instruction),
    ensures
        exists|j: int|
            0 <= j < mem_event_rows_upto(rows, k).len() && #[trigger] mem_event_rows_upto(
                rows,
                k,
            )[j] == mem_event_row(rows[i]),
    decreases k,
{
    let prev = mem_event_rows_upto(rows, k - 1);
    let cur = mem_event_rows_upto(rows, k);
    if i == k - 1 {
        let j = prev.len() as int;
        assert(cur[j] == mem_event_row(rows[i]));
    } else {
        lemma_mem_event_rows_complete(rows, k - 1, i);
        let j = choose|j: int| 0 <= j < prev.len() && prev[j] == mem_event_row(rows[i]);
        assert(cur[j] == mem_event_row(rows[i]));
    }
}

} // verus!
