//! A small byte-addressed zkVM core: an instruction set, a deterministic
//! preflight simulator, and generators for the fixed-shape field-element
//! tables (program listing, CPU trace, memory ledger) that a STARK proving
//! backend commits to.

pub mod preflight_simulator;
pub mod stark_cpu;
pub mod stark_memory;
pub mod stark_pixie_zkvm;
pub mod stark_program_instructions;
pub mod table;
pub mod vm_specs;
