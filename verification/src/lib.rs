//! A brute-force synthesizer for short straight-line bit-manipulation
//! programs.
//!
//! The search enumerates every program of a given length over a small
//! instruction vocabulary and keeps those that agree with a table of sampled
//! input/output pairs.

pub mod generator;
pub mod instruction;
pub mod interpreter;
pub mod oracle;
pub mod programs;
pub mod render;
pub mod search;
pub mod search_space;
pub mod sequences;

pub use generator::{constants, possible_instructions, possible_instructions_with};
pub use instruction::{is_well_formed, BinOp, Instruction, Operand, Program, UnOp};
pub use interpreter::{execute_instruction, simulate_program};
pub use oracle::{build_oracle, sample_inputs, synthesize};
pub use programs::generate_programs;
pub use render::{show_instruction, show_operand, show_program};
pub use search::{explore, satisfies_oracle, search, Sample};
