//! The proof-session orchestration of the Pixie zkVM: one simulation,
//! the three tables derived from it, and the cross-table guarantees that
//! make the backend's lookup argument sound.
//!
//! The three tables of a session are committed and observed by the proof
//! transcript in a fixed order — program instructions, CPU, memory; this
//! order is part of the protocol. The committing itself, the Fiat-Shamir
//! transcript, and the challenge sampling are the proving backend's work
//! and live outside this crate; this module produces the tables in the
//! protocol's order and proves the cross-table links that the backend's
//! lookup argument checks cryptographically.

use vstd::prelude::*;

use crate::preflight_simulator::{
    rows_wf,
    spec_simulate,
    PreflightSimulation,
    RowModel,
    SimulationError,
};
use crate::stark_cpu::{cpu_rows, CPUStark, NUM_DYNAMIC_COLS};
use crate::stark_memory::{
    is_mem_op,
    lemma_mem_event_rows_complete,
    lemma_mem_event_rows_shape,
    lemma_mem_init_rows_shape,
    mem_event_row,
    mem_event_rows_upto,
    mem_init_rows_upto,
    memory_rows,
    MemoryStark,
};
use crate::stark_program_instructions::{
    lemma_program_rows_complete,
    lemma_program_rows_shape,
    program_row,
    program_rows,
    ProgramInstructionsStark,
};
use crate::table::{zero_row, Table};
use crate::vm_specs::{opcode, Instruction, Program, OPCODE_COUNT};

verus! {

/// Number of independent consistency checks the session is configured
/// with (the proving backend's standard fast configuration).
pub const NUM_CHALLENGES: usize = 2;

/// Field elements to sample from the transcript: each cross-table
/// grand-product check consumes two (a beta and a gamma).
pub const NUM_CHALLENGE_ELEMENTS: usize = 2 * NUM_CHALLENGES;

/// The three tables of one proving session, in the fixed order in which
/// the transcript must observe their commitments: program instructions,
/// then CPU, then memory. Any deviation from this order makes an
/// otherwise-valid proof fail to verify.
pub struct SessionTables {
    pub program_instructions: Table,
    pub cpu: Table,
    pub memory: Table,
}

/// Simulates the program and derives all three tables from that one
/// shared simulation — the derivation from a single run is what makes
/// the tables mutually consistent by construction. Any simulator failure
/// aborts the whole session; no partial result is returned.
pub fn generate_session_tables(prog: &Program) -> (r: Result<SessionTables, SimulationError>)
    ensures
        match r {
            Ok(t) => {
                let rows = spec_simulate(*prog)->Ok_0;
                &&& spec_simulate(*prog) is Ok
                &&& t.program_instructions.wf()
                &&& t.program_instructions.width == crate::stark_program_instructions::NUMBER_OF_COLS
                &&& t.program_instructions.is_padded(program_rows(prog.code@))
                &&& t.cpu.wf()
                &&& t.cpu.width == crate::stark_cpu::NUMBER_OF_COLS
                &&& t.cpu.is_padded(cpu_rows(rows))
                &&& t.memory.wf()
                &&& t.memory.width == crate::stark_memory::NUMBER_OF_COLS
                &&& t.memory.is_padded(memory_rows(prog.memory_init@, rows))
                &&& rows_wf(prog.code@, rows)
            },
            Err(e) => Err::<Seq<RowModel>, SimulationError>(e) == spec_simulate(*prog),
        },
{
    let sim = match PreflightSimulation::simulate(prog) {
        Ok(sim) => sim,
        Err(e) => {
            return Err(e);
        },
    };
    let program_instructions = ProgramInstructionsStark::generate_trace(prog);
    let cpu = CPUStark::generate_trace(&sim);
    let memory = MemoryStark::generate_trace(&sim);
    Ok(SessionTables { program_instructions, cpu, memory })
}

/// A CPU-table row and a program-table row match on (address, opcode):
/// they carry the same instruction address, and the one-hot opcode
/// column the program row names is set in the CPU row.
pub open spec fn code_link(c: Seq<u64>, p: Seq<u64>) -> bool {
    &&& p.len() == crate::stark_program_instructions::NUMBER_OF_COLS
    &&& c.len() == crate::stark_cpu::NUMBER_OF_COLS
    &&& p[2] == 1
    &&& c[1] == p[0]
    &&& 0 <= p[1] < OPCODE_COUNT
    &&& c[NUM_DYNAMIC_COLS + p[1] as int] == 1
}

/// Static/dynamic code integrity: every CPU-table row of a well-formed
/// simulation matches exactly one row of the program listing on
/// (address, opcode) — existence here, uniqueness below through the
/// address cell.
pub proof fn lemma_cpu_program_linkage(code: Map<u8, Instruction>, rows: Seq<RowModel>, i: int)
    requires
        rows_wf(code, rows),
        0 <= i < rows.len(),
    ensures
        exists|j: int|
            0 <= j < program_rows(code).len() && code_link(
                cpu_rows(rows)[i],
                #[trigger] program_rows(code)[j],
            ),
        forall|j1: int, j2: int|
            0 <= j1 < program_rows(code).len() && 0 <= j2 < program_rows(code).len()
                && program_rows(code)[j1][0] == cpu_rows(rows)[i][1] && program_rows(code)[j2][0]
                == cpu_rows(rows)[i][1] ==> j1 == j2,
{
    let pt = program_rows(code);
    let r = rows[i];
    let pc = r.program_counter;
    lemma_program_rows_complete(code, 256, pc);
    let j = choose|j: int| 0 <= j < pt.len() && #[trigger] pt[j] == program_row(pc, code[pc]);
    assert(cpu_rows(rows)[i] == crate::stark_cpu::cpu_row(r));
    assert(code_link(cpu_rows(rows)[i], pt[j])) by {
        assert(pt[j] == seq![pc as u64, opcode(r.instruction) as u64, 1u64]);
        assert(cpu_rows(rows)[i][1] == pc as u64);
        assert(0 <= opcode(r.instruction) < OPCODE_COUNT);
        assert(cpu_rows(rows)[i][NUM_DYNAMIC_COLS + opcode(r.instruction) as int] == 1);
    }
    lemma_program_rows_shape(code, 256);
    assert forall|j1: int, j2: int|
        0 <= j1 < pt.len() && 0 <= j2 < pt.len() && pt[j1][0] == cpu_rows(rows)[i][1] && pt[j2][0]
            == cpu_rows(rows)[i][1] implies j1 == j2 by {
        if j1 < j2 {
            assert(pt[j1][0] < pt[j2][0]);
        }
        if j2 < j1 {
            assert(pt[j2][0] < pt[j1][0]);
        }
    }
}

/// A CPU-table row and a memory-table row match on (address, clock) and
/// on the load/store tag: the ledger row carries the same address as the
/// CPU row's operand-address cell, the same clock, and its is-lb/is-sb
/// tags equal the CPU row's Lb and Sb one-hot columns.
pub open spec fn memory_link(c: Seq<u64>, m: Seq<u64>) -> bool {
    &&& m.len() == crate::stark_memory::NUMBER_OF_COLS
    &&& c.len() == crate::stark_cpu::NUMBER_OF_COLS
    &&& m[0] == c[4]
    &&& m[1] == c[0]
    &&& m[3] == c[NUM_DYNAMIC_COLS + opcode(Instruction::Lb(crate::vm_specs::Register::R0, crate::vm_specs::MemoryLocation(0))) as int]
    &&& m[4] == c[NUM_DYNAMIC_COLS + opcode(Instruction::Sb(crate::vm_specs::Register::R0, crate::vm_specs::MemoryLocation(0))) as int]
    &&& m[6] == 1
}

/// The column index of the CPU table's is-executed filter.
pub open spec fn cpu_is_exec_col() -> int {
    crate::stark_cpu::NUMBER_OF_COLS - 1
}

/// Cross-table linkage over the padded tables of one session, exactly as
/// the backend's lookup argument consumes them. For every is-executed
/// row of the CPU table: the row is a real row of the trace; exactly one
/// real (filter = 1) row of the program table shares its (address,
/// opcode); and, when the row is a load/store, exactly one row of the
/// whole memory table shares its clock cell — the access's own event
/// row, which also carries the matching address and the observed value.
pub proof fn lemma_session_tables_linkage(
    code: Map<u8, Instruction>,
    mem_init: Map<u8, u8>,
    rows: Seq<RowModel>,
    pt: Table,
    cpu: Table,
    mem: Table,
    i: int,
)
    requires
        rows_wf(code, rows),
        rows.len() <= 0x100_0000,
        pt.width == crate::stark_program_instructions::NUMBER_OF_COLS,
        pt.is_padded(program_rows(code)),
        cpu.width == crate::stark_cpu::NUMBER_OF_COLS,
        cpu.is_padded(cpu_rows(rows)),
        mem.width == crate::stark_memory::NUMBER_OF_COLS,
        mem.is_padded(memory_rows(mem_init, rows)),
        0 <= i < cpu.cells().len(),
        cpu.cells()[i][cpu_is_exec_col()] == 1,
    ensures
        0 <= i < rows.len() && cpu.cells()[i] == cpu_rows(rows)[i],
        exists|j: int|
            0 <= j < pt.cells().len() && code_link(cpu.cells()[i], #[trigger] pt.cells()[j]),
        forall|j1: int, j2: int|
            0 <= j1 < pt.cells().len() && 0 <= j2 < pt.cells().len() && pt.cells()[j1][2] == 1
                && pt.cells()[j2][2] == 1 && pt.cells()[j1][0] == cpu.cells()[i][1]
                && pt.cells()[j2][0] == cpu.cells()[i][1] ==> j1 == j2,
        is_mem_op(rows[i].instruction) ==> exists|j: int|
            0 <= j < mem.cells().len() && #[trigger] mem.cells()[j] == mem_event_row(rows[i])
                && memory_link(cpu.cells()[i], mem.cells()[j]),
        is_mem_op(rows[i].instruction) ==> forall|j1: int, j2: int|
            0 <= j1 < mem.cells().len() && 0 <= j2 < mem.cells().len() && mem.cells()[j1][1]
                == cpu.cells()[i][0] && mem.cells()[j2][1] == cpu.cells()[i][0] ==> j1 == j2,
{
    let crows = cpu_rows(rows);
    let n = rows.len() as int;

    // A padding row has its is-executed cell 0, so row i is real.
    if i >= crows.len() {
        assert(cpu.cells()[i] == zero_row(cpu.width as nat));
        assert(cpu.cells()[i][cpu_is_exec_col()] == 0);
    }
    assert(0 <= i < n);
    assert(crows[i] == crate::stark_cpu::cpu_row(rows[i]));
    assert(cpu.cells()[i] == crows[i]);

    // Code integrity, lifted from the semantic rows to the padded table.
    lemma_cpu_program_linkage(code, rows, i);
    let pr = program_rows(code);
    let j = choose|j: int| 0 <= j < pr.len() && code_link(crows[i], #[trigger] pr[j]);
    assert(pt.cells()[j] == pr[j]);
    assert(code_link(cpu.cells()[i], pt.cells()[j]));
    assert forall|j1: int, j2: int|
        0 <= j1 < pt.cells().len() && 0 <= j2 < pt.cells().len() && pt.cells()[j1][2] == 1
            && pt.cells()[j2][2] == 1 && pt.cells()[j1][0] == cpu.cells()[i][1]
            && pt.cells()[j2][0] == cpu.cells()[i][1] implies j1 == j2 by {
        if j1 >= pr.len() {
            assert(pt.cells()[j1] == zero_row(pt.width as nat));
            assert(pt.cells()[j1][2] == 0);
        } else if j2 >= pr.len() {
            assert(pt.cells()[j2] == zero_row(pt.width as nat));
            assert(pt.cells()[j2][2] == 0);
        } else {
            assert(pt.cells()[j1] == pr[j1]);
            assert(pt.cells()[j2] == pr[j2]);
        }
    }

    // Memory integrity, lifted the same way.
    if is_mem_op(rows[i].instruction) {
        lemma_cpu_memory_linkage(mem_init, rows, i);
        let mr = memory_rows(mem_init, rows);
        let jm = choose|j: int| 0 <= j < mr.len() && #[trigger] mr[j] == mem_event_row(rows[i]);
        assert(mem.cells()[jm] == mr[jm]);
        assert(memory_link(cpu.cells()[i], mem.cells()[jm]));
        assert(cpu.cells()[i][0] == rows[i].clock as u64);
        assert(rows[i].clock == i + 1);
        assert forall|j1: int, j2: int|
            0 <= j1 < mem.cells().len() && 0 <= j2 < mem.cells().len() && mem.cells()[j1][1]
                == cpu.cells()[i][0] && mem.cells()[j2][1] == cpu.cells()[i][0] implies j1
            == j2 by {
            if j1 >= mr.len() {
                assert(mem.cells()[j1] == zero_row(mem.width as nat));
                assert(mem.cells()[j1][1] == 0);
            } else if j2 >= mr.len() {
                assert(mem.cells()[j2] == zero_row(mem.width as nat));
                assert(mem.cells()[j2][1] == 0);
            } else {
                assert(mem.cells()[j1] == mr[j1]);
                assert(mem.cells()[j2] == mr[j2]);
            }
        }
    }
}

/// Memory integrity: every load/store CPU-table row of a well-formed
/// simulation matches exactly one row of the memory ledger on (address,
/// clock, value): its own event row, which also carries the observed
/// memory value; and no other ledger row shares its clock cell.
pub proof fn lemma_cpu_memory_linkage(
    mem_init: Map<u8, u8>,
    rows: Seq<RowModel>,
    i: int,
)
    requires
        0 <= i < rows.len(),
        rows.len() <= 0x100_0000,
        forall|l: int| 0 <= l < rows.len() ==> (#[trigger] rows[l]).clock == l + 1,
        is_mem_op(rows[i].instruction),
    ensures
        exists|j: int|
            0 <= j < memory_rows(mem_init, rows).len() && #[trigger] memory_rows(mem_init, rows)[j]
                == mem_event_row(rows[i]),
        memory_link(cpu_rows(rows)[i], mem_event_row(rows[i])),
        forall|j1: int, j2: int|
            0 <= j1 < memory_rows(mem_init, rows).len() && 0 <= j2 < memory_rows(
                mem_init,
                rows,
            ).len() && memory_rows(mem_init, rows)[j1][1] == rows[i].clock as u64 && memory_rows(
                mem_init,
                rows,
            )[j2][1] == rows[i].clock as u64 ==> j1 == j2,
{
    let n = rows.len() as int;
    let init = mem_init_rows_upto(mem_init, 256);
    let events = mem_event_rows_upto(rows, n);
    let mt = memory_rows(mem_init, rows);
    assert(mt == init + events);

    // Existence: the event row of row i is in the events part.
    lemma_mem_event_rows_complete(rows, n, i);
    let je = choose|j: int|
        0 <= j < events.len() && #[trigger] events[j] == mem_event_row(rows[i]);
    assert(mt[init.len() + je] == mem_event_row(rows[i]));

    // The event row and the CPU row agree cell by cell.
    assert(cpu_rows(rows)[i] == crate::stark_cpu::cpu_row(rows[i]));
    assert(memory_link(cpu_rows(rows)[i], mem_event_row(rows[i])));

    // Uniqueness: initial rows carry clock 0, and event clocks strictly
    // increase, while row i's clock is at least 1.
    lemma_mem_init_rows_shape(mem_init, 256);
    lemma_mem_event_rows_shape(rows, n);
    let clk = rows[i].clock as u64;
    assert(clk >= 1);
    assert forall|j1: int, j2: int|
        0 <= j1 < mt.len() && 0 <= j2 < mt.len() && mt[j1][1] == clk && mt[j2][1]
            == clk implies j1 == j2 by {
        assert(mt[j1] == if j1 < init.len() {
            init[j1]
        } else {
            events[j1 - init.len()]
        });
        assert(mt[j2] == if j2 < init.len() {
            init[j2]
        } else {
            events[j2 - init.len()]
        });
        if j1 < init.len() {
            assert(init[j1][1] == 0);
        } else if j2 < init.len() {
            assert(init[j2][1] == 0);
        } else {
            let e1 = j1 - init.len();
            let e2 = j2 - init.len();
            if e1 < e2 {
                assert(events[e1][1] < events[e2][1]);
            }
            if e2 < e1 {
                assert(events[e2][1] < events[e1][1]);
            }
        }
    }
}

} // verus!
