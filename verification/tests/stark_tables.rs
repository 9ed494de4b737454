//! Tests of the ISA encoding and of the three trace generators: exact
//! cell values, the padding law, and the cross-table links on concrete
//! tables.

use std::collections::HashMap;

use pixie_zkvm::preflight_simulator::PreflightSimulation;
use pixie_zkvm::stark_cpu::CPUStark;
use pixie_zkvm::stark_memory::MemoryStark;
use pixie_zkvm::stark_pixie_zkvm::{generate_session_tables, NUM_CHALLENGES, NUM_CHALLENGE_ELEMENTS};
use pixie_zkvm::stark_program_instructions::ProgramInstructionsStark;
use pixie_zkvm::table::Table;
use pixie_zkvm::vm_specs::{
    Instruction, MemoryLocation, Program, Register, OPCODE_COUNT, REGISTER_COUNT,
};

fn add_program() -> Program {
    let instructions = vec![
        Instruction::Lb(Register::R0, MemoryLocation(0x40)),
        Instruction::Lb(Register::R1, MemoryLocation(0x41)),
        Instruction::Add(Register::R0, Register::R1),
        Instruction::Sb(Register::R0, MemoryLocation(0x42)),
        Instruction::Halt,
    ];
    let code = instructions
        .into_iter()
        .enumerate()
        .map(|(idx, inst)| (idx as u8, inst))
        .collect::<HashMap<u8, Instruction>>();
    let memory_init: HashMap<u8, u8> = HashMap::from_iter(vec![(0x40, 0x20), (0x41, 0x45)]);
    Program {
        entry_point: 0,
        code,
        memory_init,
    }
}

fn is_pow2(n: usize) -> bool {
    n >= 1 && n & (n - 1) == 0
}

fn check_padding(table: &Table, real_rows: usize) {
    assert!(is_pow2(table.rows.len()));
    assert!(table.rows.len() >= real_rows);
    for row in &table.rows {
        assert_eq!(row.len(), table.width);
    }
    for row in &table.rows[real_rows..] {
        for cell in row {
            assert_eq!(*cell, 0);
        }
    }
}

/// Each instruction variant has its stable opcode, contiguous from zero.
#[test]
fn test_opcodes() {
    assert_eq!(OPCODE_COUNT, 11);
    let r = Register::R0;
    let m = MemoryLocation(0);
    let l = pixie_zkvm::vm_specs::InstructionLocation(0);
    assert_eq!(Instruction::Add(r, r).get_opcode(), 0);
    assert_eq!(Instruction::Sub(r, r).get_opcode(), 1);
    assert_eq!(Instruction::Mul(r, r).get_opcode(), 2);
    assert_eq!(Instruction::Div(r, r).get_opcode(), 3);
    assert_eq!(Instruction::Shl(r, r).get_opcode(), 4);
    assert_eq!(Instruction::Shr(r, r).get_opcode(), 5);
    assert_eq!(Instruction::Jz(r, l).get_opcode(), 6);
    assert_eq!(Instruction::Jnz(r, l).get_opcode(), 7);
    assert_eq!(Instruction::Lb(r, m).get_opcode(), 8);
    assert_eq!(Instruction::Sb(r, m).get_opcode(), 9);
    assert_eq!(Instruction::Halt.get_opcode(), 10);
}

/// Each register has its stable, contiguous array index.
#[test]
fn test_register_index() {
    assert_eq!(REGISTER_COUNT, 2);
    assert_eq!(Register::R0.index(), 0);
    assert_eq!(Register::R1.index(), 1);
    assert_eq!(Register::default(), Register::R0);
}

/// The program table lists one row per (address, instruction) pair:
/// program counter, opcode, filter.
#[test]
fn test_program_table() {
    let program = add_program();
    let table = ProgramInstructionsStark::generate_trace(&program);
    assert_eq!(table.width, 3);
    // 5 instructions pad to 8 rows.
    assert_eq!(table.rows.len(), 8);
    check_padding(&table, 5);
    assert_eq!(table.rows[0], vec![0, 8, 1]); // Lb
    assert_eq!(table.rows[1], vec![1, 8, 1]); // Lb
    assert_eq!(table.rows[2], vec![2, 0, 1]); // Add
    assert_eq!(table.rows[3], vec![3, 9, 1]); // Sb
    assert_eq!(table.rows[4], vec![4, 10, 1]); // Halt
}

/// The CPU table has one row per simulation row: clock, pc, registers,
/// operand address, the one-hot opcode block, and the is-executed filter.
#[test]
fn test_cpu_table() {
    let program = add_program();
    let simulation = PreflightSimulation::simulate(&program).unwrap();
    let table = CPUStark::generate_trace(&simulation);
    assert_eq!(table.width, 17);
    // 5 rows pad to 8.
    assert_eq!(table.rows.len(), 8);
    check_padding(&table, 5);

    let one_hot = |op: usize| -> Vec<u64> {
        (0..11).map(|k| if k == op { 1 } else { 0 }).collect()
    };
    let row = |clk: u64, pc: u64, r0: u64, r1: u64, loc: u64, op: usize| -> Vec<u64> {
        let mut v = vec![clk, pc, r0, r1, loc];
        v.extend(one_hot(op));
        v.push(1);
        v
    };
    assert_eq!(table.rows[0], row(1, 0, 0x00, 0x00, 0x40, 8)); // Lb R0 <- [0x40]
    assert_eq!(table.rows[1], row(2, 1, 0x20, 0x00, 0x41, 8)); // Lb R1 <- [0x41]
    assert_eq!(table.rows[2], row(3, 2, 0x20, 0x45, 0x00, 0)); // Add R0 += R1
    assert_eq!(table.rows[3], row(4, 3, 0x65, 0x45, 0x42, 9)); // Sb [0x42] <- R0
    assert_eq!(table.rows[4], row(5, 4, 0x65, 0x45, 0x00, 10)); // Halt
}

/// The memory table is a complete ledger: initial rows at clock 0, one
/// row per load/store event, all-zero padding.
#[test]
fn test_memory_table() {
    let program = add_program();
    let simulation = PreflightSimulation::simulate(&program).unwrap();
    let table = MemoryStark::generate_trace(&simulation);
    assert_eq!(table.width, 7);
    // 2 init rows + 3 events pad to 8.
    assert_eq!(table.rows.len(), 8);
    check_padding(&table, 5);

    // addr, clock, value, is_lb, is_sb, is_init, is_executed
    assert_eq!(table.rows[0], vec![0x40, 0, 0x20, 0, 0, 1, 1]);
    assert_eq!(table.rows[1], vec![0x41, 0, 0x45, 0, 0, 1, 1]);
    assert_eq!(table.rows[2], vec![0x40, 1, 0x20, 1, 0, 0, 1]);
    assert_eq!(table.rows[3], vec![0x41, 2, 0x45, 1, 0, 0, 1]);
    assert_eq!(table.rows[4], vec![0x42, 4, 0x65, 0, 1, 0, 1]);
}

/// Cross-table linkage on a concrete run: every is-executed CPU row has
/// exactly one program-table row with its (address, opcode); every
/// load/store CPU row has exactly one memory-table row with its
/// (address, clock) pair, carrying the observed value.
#[test]
fn test_cross_table_linkage() {
    let program = add_program();
    let tables = generate_session_tables(&program).unwrap();
    let cpu = &tables.cpu;
    let pt = &tables.program_instructions;
    let mem = &tables.memory;

    for row in &cpu.rows {
        if row[16] == 0 {
            continue; // padding
        }
        let pc = row[1];
        let op = (5..16).position(|c| row[c] == 1).unwrap() as u64;
        let matches = pt
            .rows
            .iter()
            .filter(|p| p[2] == 1 && p[0] == pc && p[1] == op)
            .count();
        assert_eq!(matches, 1);

        // Load/store rows: exactly one ledger row with this (addr, clock).
        if op == 8 || op == 9 {
            let addr = row[4];
            let clk = row[0];
            let found: Vec<&Vec<u64>> = mem
                .rows
                .iter()
                .filter(|m| m[6] == 1 && m[0] == addr && m[1] == clk)
                .collect();
            assert_eq!(found.len(), 1);
            let ledger = found[0];
            assert_eq!(ledger[3], if op == 8 { 1 } else { 0 });
            assert_eq!(ledger[4], if op == 9 { 1 } else { 0 });
        }
    }
}

/// The padding law across all three generated tables of one session:
/// power-of-two row counts and all-zero padding rows.
#[test]
fn test_padding_law() {
    // A 3-instruction program: real row counts that are not powers of two.
    let instructions = vec![
        Instruction::Lb(Register::R0, MemoryLocation(0x10)),
        Instruction::Sb(Register::R0, MemoryLocation(0x11)),
        Instruction::Halt,
    ];
    let code = instructions
        .into_iter()
        .enumerate()
        .map(|(idx, inst)| (idx as u8, inst))
        .collect::<HashMap<u8, Instruction>>();
    let program = Program {
        entry_point: 0,
        code,
        memory_init: HashMap::from_iter(vec![(0x10, 0x09)]),
    };
    let tables = generate_session_tables(&program).unwrap();
    check_padding(&tables.program_instructions, 3);
    check_padding(&tables.cpu, 3);
    check_padding(&tables.memory, 3); // 1 init row + 2 events
    assert_eq!(tables.program_instructions.rows.len(), 4);
    assert_eq!(tables.cpu.rows.len(), 4);
    assert_eq!(tables.memory.rows.len(), 4);
}

/// An empty program still yields well-shaped tables: a single all-zero
/// row each (1 is the smallest power of two), and no real rows.
#[test]
fn test_empty_program_tables() {
    let program = Program::default();
    let tables = generate_session_tables(&program).unwrap();
    check_padding(&tables.program_instructions, 0);
    check_padding(&tables.cpu, 0);
    check_padding(&tables.memory, 0);
    assert_eq!(tables.program_instructions.rows.len(), 1);
    assert_eq!(tables.cpu.rows.len(), 1);
    assert_eq!(tables.memory.rows.len(), 1);
}

/// A session over a failing simulation aborts with the simulator's error
/// and returns no tables.
#[test]
fn test_session_aborts_on_failure() {
    let program = Program {
        entry_point: 5,
        code: HashMap::from_iter(vec![(0, Instruction::Halt)]),
        memory_init: HashMap::new(),
    };
    assert!(generate_session_tables(&program).is_err());
}

/// The configured challenge counts: two elements per consistency check.
#[test]
fn test_challenge_counts() {
    assert_eq!(NUM_CHALLENGES, 2);
    assert_eq!(NUM_CHALLENGE_ELEMENTS, 2 * NUM_CHALLENGES);
}

/// Each generator constructs statelessly and its trace depends only on
/// its input: two generators produce identical tables.
#[test]
fn test_generators_are_stateless() {
    let program = add_program();
    let simulation = PreflightSimulation::simulate(&program).unwrap();
    let _ = ProgramInstructionsStark::new();
    let _ = CPUStark::new();
    let _ = MemoryStark::new();
    let a = CPUStark::generate_trace(&simulation);
    let b = CPUStark::generate_trace(&simulation);
    assert_eq!(a.rows, b.rows);
    let a = MemoryStark::generate_trace(&simulation);
    let b = MemoryStark::generate_trace(&simulation);
    assert_eq!(a.rows, b.rows);
    let a = ProgramInstructionsStark::generate_trace(&program);
    let b = ProgramInstructionsStark::generate_trace(&program);
    assert_eq!(a.rows, b.rows);
}
