//! Tests of the preflight simulator: end-to-end runs, the error
//! taxonomy, and the arithmetic and memory rules on concrete values.

use std::collections::HashMap;

use pixie_zkvm::preflight_simulator::{PreflightSimulation, SimulationError, SimulationRow};
use pixie_zkvm::vm_specs::{
    Instruction, InstructionLocation, MemoryLocation, Program, Register, REGISTER_COUNT,
};

fn program_of(instructions: Vec<Instruction>, memory_init: Vec<(u8, u8)>) -> Program {
    let code = instructions
        .into_iter()
        .enumerate()
        .map(|(idx, inst)| (idx as u8, inst))
        .collect::<HashMap<u8, Instruction>>();
    Program {
        entry_point: 0,
        code,
        memory_init: memory_init.into_iter().collect(),
    }
}

/// Tests whether two numbers in memory can be added together in the ZKVM.
#[test]
fn test_preflight_add_memory() {
    let instructions = vec![
        Instruction::Lb(Register::R0, MemoryLocation(0x40)),
        Instruction::Lb(Register::R1, MemoryLocation(0x41)),
        Instruction::Add(Register::R0, Register::R1),
        Instruction::Sb(Register::R0, MemoryLocation(0x42)),
        Instruction::Halt,
    ];

    let code = instructions
        .into_iter()
        .enumerate()
        .map(|(idx, inst)| (idx as u8, inst))
        .collect::<HashMap<u8, Instruction>>();

    let memory_init: HashMap<u8, u8> = HashMap::from_iter(vec![(0x40, 0x20), (0x41, 0x45)]);

    let program = Program {
        entry_point: 0,
        code,
        memory_init,
    };

    let expected = (0x42, 0x65);

    let simulation = PreflightSimulation::simulate(&program);
    assert!(simulation.is_ok());
    let simulation = simulation.unwrap();

    assert_eq!(
        simulation.trace_rows[simulation.trace_rows.len() - 1]
            .get_memory_at(&expected.0)
            .unwrap(),
        expected.1
    );
}

/// Tests whether execution stops on reaching `MAX_CPU_CYCLES_ALLOWED`.
#[test]
fn test_max_cpu_cycles() {
    let instructions = vec![
        Instruction::Jz(Register::R0, InstructionLocation(0x00)),
        Instruction::Halt,
    ];

    let code = instructions
        .into_iter()
        .enumerate()
        .map(|(idx, inst)| (idx as u8, inst))
        .collect::<HashMap<u8, Instruction>>();

    let program = Program {
        entry_point: 0,
        code,
        ..Default::default()
    };

    let simulation = PreflightSimulation::simulate(&program);
    assert!(simulation.is_err());
}

/// Tests whether execution halts.
#[test]
fn test_haltable() {
    let instructions = vec![
        Instruction::Lb(Register::R0, MemoryLocation(0x40)),
        Instruction::Lb(Register::R1, MemoryLocation(0x41)),
        Instruction::Sub(Register::R0, Register::R1),
        Instruction::Jnz(Register::R0, InstructionLocation(0x02)),
        Instruction::Halt,
    ];

    let code = instructions
        .into_iter()
        .enumerate()
        .map(|(idx, inst)| (idx as u8, inst))
        .collect::<HashMap<u8, Instruction>>();

    let memory_init: HashMap<u8, u8> = HashMap::from_iter(vec![(0x40, 0x05), (0x41, 0x01)]);

    let program = Program {
        entry_point: 0,
        code,
        memory_init,
    };

    let simulation = PreflightSimulation::simulate(&program);
    assert!(simulation.is_ok());
}

/// A non-terminating program fails with `CycleLimitExceeded`, not by
/// hanging or with another error.
#[test]
fn test_cycle_limit_error_kind() {
    let program = program_of(
        vec![
            Instruction::Jz(Register::R0, InstructionLocation(0x00)),
            Instruction::Halt,
        ],
        vec![],
    );
    let simulation = PreflightSimulation::simulate(&program);
    assert_eq!(simulation.err().unwrap(), SimulationError::CycleLimitExceeded);
}

/// An empty program succeeds with zero rows and the memory unchanged.
#[test]
fn test_empty_program() {
    let program = program_of(vec![], vec![(0x01, 0x09)]);
    let simulation = PreflightSimulation::simulate(&program);
    assert!(simulation.is_ok());
    let simulation = simulation.unwrap();
    assert_eq!(simulation.trace_rows.len(), 0);
    assert_eq!(simulation.memory_init.len(), 1);
    assert_eq!(simulation.memory_init.get(&0x01), Some(&0x09));
}

/// A missing entry point fails with `InstructionNotFound`.
#[test]
fn test_missing_entry_point() {
    let mut program = program_of(vec![Instruction::Halt], vec![]);
    program.entry_point = 0x20;
    let simulation = PreflightSimulation::simulate(&program);
    assert_eq!(
        simulation.err().unwrap(),
        SimulationError::InstructionNotFound
    );
}

/// Jumping outside the code map is fatal, not a no-op.
#[test]
fn test_jump_outside_code_map() {
    let program = program_of(
        vec![
            Instruction::Jz(Register::R0, InstructionLocation(0x70)),
            Instruction::Halt,
        ],
        vec![],
    );
    let simulation = PreflightSimulation::simulate(&program);
    assert_eq!(
        simulation.err().unwrap(),
        SimulationError::InstructionNotFound
    );
}

/// Wrapping addition: 250 + 10 wraps to 4 (mod 256).
#[test]
fn test_wrapping_add() {
    let program = program_of(
        vec![
            Instruction::Lb(Register::R0, MemoryLocation(0x40)),
            Instruction::Lb(Register::R1, MemoryLocation(0x41)),
            Instruction::Add(Register::R0, Register::R1),
            Instruction::Sb(Register::R0, MemoryLocation(0x42)),
            Instruction::Halt,
        ],
        vec![(0x40, 250), (0x41, 10)],
    );
    let simulation = PreflightSimulation::simulate(&program).unwrap();
    let last = &simulation.trace_rows[simulation.trace_rows.len() - 1];
    assert_eq!(last.get_memory_at(&0x42), Some(4));
}

/// Wrapping subtraction, multiplication, division (divisor 0 yields 0),
/// and the mod-8 shift policy, each with an exact expected value.
#[test]
fn test_wrapping_ops() {
    // 5 - 10 wraps to 251.
    let sub = program_of(
        vec![
            Instruction::Lb(Register::R0, MemoryLocation(0x40)),
            Instruction::Lb(Register::R1, MemoryLocation(0x41)),
            Instruction::Sub(Register::R0, Register::R1),
            Instruction::Sb(Register::R0, MemoryLocation(0x42)),
            Instruction::Halt,
        ],
        vec![(0x40, 5), (0x41, 10)],
    );
    let sim = PreflightSimulation::simulate(&sub).unwrap();
    let last = &sim.trace_rows[sim.trace_rows.len() - 1];
    assert_eq!(last.get_memory_at(&0x42), Some(251));

    // 32 * 16 = 512 wraps to 0.
    let mul = program_of(
        vec![
            Instruction::Lb(Register::R0, MemoryLocation(0x40)),
            Instruction::Lb(Register::R1, MemoryLocation(0x41)),
            Instruction::Mul(Register::R0, Register::R1),
            Instruction::Sb(Register::R0, MemoryLocation(0x42)),
            Instruction::Halt,
        ],
        vec![(0x40, 32), (0x41, 16)],
    );
    let sim = PreflightSimulation::simulate(&mul).unwrap();
    let last = &sim.trace_rows[sim.trace_rows.len() - 1];
    assert_eq!(last.get_memory_at(&0x42), Some(0));

    // 7 / 2 = 3; and a divisor of 0 yields 0.
    let div = program_of(
        vec![
            Instruction::Lb(Register::R0, MemoryLocation(0x40)),
            Instruction::Lb(Register::R1, MemoryLocation(0x41)),
            Instruction::Div(Register::R0, Register::R1),
            Instruction::Sb(Register::R0, MemoryLocation(0x42)),
            Instruction::Halt,
        ],
        vec![(0x40, 7), (0x41, 2)],
    );
    let sim = PreflightSimulation::simulate(&div).unwrap();
    let last = &sim.trace_rows[sim.trace_rows.len() - 1];
    assert_eq!(last.get_memory_at(&0x42), Some(3));

    let div0 = program_of(
        vec![
            Instruction::Lb(Register::R0, MemoryLocation(0x40)),
            Instruction::Div(Register::R0, Register::R1),
            Instruction::Sb(Register::R0, MemoryLocation(0x42)),
            Instruction::Halt,
        ],
        vec![(0x40, 7)],
    );
    let sim = PreflightSimulation::simulate(&div0).unwrap();
    let last = &sim.trace_rows[sim.trace_rows.len() - 1];
    assert_eq!(last.get_memory_at(&0x42), Some(0));

    // 3 << 9 shifts by 9 % 8 = 1: result 6.
    let shl = program_of(
        vec![
            Instruction::Lb(Register::R0, MemoryLocation(0x40)),
            Instruction::Lb(Register::R1, MemoryLocation(0x41)),
            Instruction::Shl(Register::R0, Register::R1),
            Instruction::Sb(Register::R0, MemoryLocation(0x42)),
            Instruction::Halt,
        ],
        vec![(0x40, 3), (0x41, 9)],
    );
    let sim = PreflightSimulation::simulate(&shl).unwrap();
    let last = &sim.trace_rows[sim.trace_rows.len() - 1];
    assert_eq!(last.get_memory_at(&0x42), Some(6));

    // 129 >> 7 = 1.
    let shr = program_of(
        vec![
            Instruction::Lb(Register::R0, MemoryLocation(0x40)),
            Instruction::Lb(Register::R1, MemoryLocation(0x41)),
            Instruction::Shr(Register::R0, Register::R1),
            Instruction::Sb(Register::R0, MemoryLocation(0x42)),
            Instruction::Halt,
        ],
        vec![(0x40, 129), (0x41, 7)],
    );
    let sim = PreflightSimulation::simulate(&shr).unwrap();
    let last = &sim.trace_rows[sim.trace_rows.len() - 1];
    assert_eq!(last.get_memory_at(&0x42), Some(1));
}

/// Reading an address never written (and absent from the initial memory)
/// yields 0; the snapshot itself keeps no entry for it.
#[test]
fn test_memory_zero_default() {
    let program = program_of(
        vec![
            Instruction::Lb(Register::R0, MemoryLocation(0x50)),
            Instruction::Sb(Register::R0, MemoryLocation(0x51)),
            Instruction::Halt,
        ],
        vec![],
    );
    let simulation = PreflightSimulation::simulate(&program).unwrap();
    let last = &simulation.trace_rows[simulation.trace_rows.len() - 1];
    // The load observed 0 and the store wrote that 0 through.
    assert_eq!(last.get_memory_at(&0x51), Some(0));
    // The never-written address stays absent from every snapshot.
    for row in &simulation.trace_rows {
        assert_eq!(row.get_memory_at(&0x50), None);
    }
}

/// Simulating the same program twice yields an identical row sequence.
#[test]
fn test_determinism() {
    let program = program_of(
        vec![
            Instruction::Lb(Register::R0, MemoryLocation(0x40)),
            Instruction::Lb(Register::R1, MemoryLocation(0x41)),
            Instruction::Sub(Register::R0, Register::R1),
            Instruction::Jnz(Register::R0, InstructionLocation(0x02)),
            Instruction::Halt,
        ],
        vec![(0x40, 0x05), (0x41, 0x01)],
    );
    let first = PreflightSimulation::simulate(&program).unwrap();
    let second = PreflightSimulation::simulate(&program).unwrap();
    assert_eq!(first.trace_rows.len(), second.trace_rows.len());
    for (a, b) in first.trace_rows.iter().zip(second.trace_rows.iter()) {
        assert_eq!(a.instruction, b.instruction);
        assert_eq!(a.clock, b.clock);
        assert_eq!(a.program_counter, b.program_counter);
        assert_eq!(a.is_halted, b.is_halted);
        assert_eq!(a.get_registers(), b.get_registers());
        for addr in 0..=255u8 {
            assert_eq!(a.get_memory_at(&addr), b.get_memory_at(&addr));
        }
    }
}

/// Exactly the last row of a successful simulation is halted.
#[test]
fn test_halting_monotonicity() {
    let program = program_of(
        vec![
            Instruction::Lb(Register::R0, MemoryLocation(0x40)),
            Instruction::Lb(Register::R1, MemoryLocation(0x41)),
            Instruction::Add(Register::R0, Register::R1),
            Instruction::Sb(Register::R0, MemoryLocation(0x42)),
            Instruction::Halt,
        ],
        vec![(0x40, 0x20), (0x41, 0x45)],
    );
    let simulation = PreflightSimulation::simulate(&program).unwrap();
    let n = simulation.trace_rows.len();
    assert!(n > 0);
    for (i, row) in simulation.trace_rows.iter().enumerate() {
        assert_eq!(row.is_halted, i == n - 1);
    }
}

/// Stepping by hand: the first row looks the entry point up, and one
/// cycle applies the current instruction and fetches the next one.
#[test]
fn test_single_steps() {
    let program = program_of(
        vec![
            Instruction::Lb(Register::R0, MemoryLocation(0x40)),
            Instruction::Halt,
        ],
        vec![(0x40, 0x2a)],
    );
    let first = SimulationRow::generate_first_row(&program).unwrap();
    assert_eq!(first.instruction, Instruction::Lb(Register::R0, MemoryLocation(0x40)));
    assert_eq!(first.clock, 1);
    assert!(!first.is_halted);
    assert_eq!(first.get_memory_at(&0x40), Some(0x2a));

    let second = first.execute_one_cycle(&program).unwrap();
    assert_eq!(second.instruction, Instruction::Halt);
    assert_eq!(second.clock, 2);
    assert_eq!(second.program_counter, 1);
    assert!(second.is_halted);
    assert_eq!(second.get_registers(), [0x2a, 0x00]);

    // A missing entry point is reported by the first row already.
    let mut missing = program_of(vec![Instruction::Halt], vec![]);
    missing.entry_point = 9;
    assert_eq!(
        SimulationRow::generate_first_row(&missing).err().unwrap(),
        SimulationError::InstructionNotFound
    );
}

/// The clock starts at 1 and increments by 1; the register file has one
/// slot per register.
#[test]
fn test_first_row_and_clocks() {
    let program = program_of(
        vec![
            Instruction::Lb(Register::R0, MemoryLocation(0x40)),
            Instruction::Halt,
        ],
        vec![(0x40, 0x07)],
    );
    let simulation = PreflightSimulation::simulate(&program).unwrap();
    assert_eq!(REGISTER_COUNT, 2);
    let first = &simulation.trace_rows[0];
    assert_eq!(first.clock, 1);
    assert_eq!(first.program_counter, 0);
    assert!(!first.is_halted);
    assert_eq!(first.get_registers(), [0u8; REGISTER_COUNT]);
    for (i, row) in simulation.trace_rows.iter().enumerate() {
        assert_eq!(row.clock, (i + 1) as u32);
    }
    // The load's effect becomes visible in the following row.
    assert_eq!(simulation.trace_rows[1].get_registers(), [0x07, 0x00]);
}
