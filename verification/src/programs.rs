//! The catalog of reference programs: short bit-manipulation routines that
//! the search tries to rediscover.
//!
//! Slots 0 and 1 are the two inputs; slot 2 is the result of the first
//! instruction, slot 3 that of the second, and so on.

use crate::generator::{candidates, constant_pool};
use crate::instruction::{literal, slot, well_formed, BinOp, Instruction, Operand, Program, UnOp};
use crate::search::{programs_of, within_reach};
use crate::search_space::lemma_candidates_are_search_space;
use vstd::prelude::*;

verus! {

/// The instruction that applies `op` to the operands `op1` and `op2`.
pub open spec fn binary(op: BinOp, op1: Operand, op2: Operand) -> Instruction {
    Instruction::Binary { op, op1, op2 }
}

/// The instruction that applies `op` to the operand `op1`.
pub open spec fn unary(op: UnOp, op1: Operand) -> Instruction {
    Instruction::Unary { op, op1 }
}

/// Turn off the rightmost 1-bit of `x`: `x & (x - 1)`.
pub open spec fn turn_off_rightmost_one() -> Seq<Instruction> {
    seq![binary(BinOp::Sub, slot(0), literal(1)), binary(BinOp::And, slot(0), slot(2))]
}

/// Test whether `x` is of the form 2^n - 1: `x & (x + 1)` is zero exactly
/// then.
pub open spec fn power_of_two_test() -> Seq<Instruction> {
    seq![binary(BinOp::Add, slot(0), literal(1)), binary(BinOp::And, slot(0), slot(2))]
}

/// The average of `x` and `y`, rounded up, without overflow:
/// `(x | y) - ((x ^ y) >> 1)`.
pub open spec fn ceil_average() -> Seq<Instruction> {
    seq![
        binary(BinOp::Or, slot(0), slot(1)),
        binary(BinOp::Xor, slot(0), slot(1)),
        binary(BinOp::Shr, slot(3), literal(1)),
        binary(BinOp::Sub, slot(2), slot(4)),
    ]
}

/// The larger of `x` and `y`: `((x ^ y) & -(x >= y)) ^ y`.
pub open spec fn maximum() -> Seq<Instruction> {
    seq![
        binary(BinOp::Xor, slot(0), slot(1)),
        binary(BinOp::Uge, slot(0), slot(1)),
        unary(UnOp::Neg, slot(3)),
        binary(BinOp::And, slot(2), slot(4)),
        binary(BinOp::Xor, slot(5), slot(1)),
    ]
}

/// The reference programs, in catalog order.
pub open spec fn reference_catalog() -> Seq<Seq<Instruction>> {
    seq![turn_off_rightmost_one(), power_of_two_test(), ceil_average(), maximum()]
}

/// Every program of the catalog is built from candidates of the search
/// only, so the search can rediscover it, and reads existing slots only.
pub proof fn lemma_catalog_within_reach(i: int)
    requires
        0 <= i < reference_catalog().len(),
    ensures
        within_reach(reference_catalog()[i]),
        well_formed(reference_catalog()[i]),
{
    let program = reference_catalog()[i];
    assert forall|d: int| 0 <= d < program.len() implies candidates(d as nat).contains(
        #[trigger] program[d],
    ) by {
        lemma_candidates_are_search_space(constant_pool(), d as nat, program[d]);
    }
}

/// Builds the catalog of reference programs.
pub fn generate_programs() -> (programs: Vec<Program>)
    ensures
        programs_of(programs@) == reference_catalog(),
        forall|i: int| 0 <= i < programs.len() ==> well_formed(#[trigger] programs[i]@),
{
    let mut programs: Vec<Program> = Vec::new();

    // Turn off the rightmost 1-bit of x.
    programs.push(
        vec![
            // o2 = x - 1
            Instruction::Binary {
                op: BinOp::Sub,
                op1: Operand { value: 0, is_constant: false },
                op2: Operand { value: 1, is_constant: true },
            },
            // res = x & o2
            Instruction::Binary {
                op: BinOp::And,
                op1: Operand { value: 0, is_constant: false },
                op2: Operand { value: 2, is_constant: false },
            },
        ],
    );

    // Test whether unsigned x is of the form 2^n - 1.
    programs.push(
        vec![
            // o2 = x + 1
            Instruction::Binary {
                op: BinOp::Add,
                op1: Operand { value: 0, is_constant: false },
                op2: Operand { value: 1, is_constant: true },
            },
            // res = x & o2
            Instruction::Binary {
                op: BinOp::And,
                op1: Operand { value: 0, is_constant: false },
                op2: Operand { value: 2, is_constant: false },
            },
        ],
    );

    // Ceiling of the average of two integers, without overflow.
    programs.push(
        vec![
            // o2 = x | y
            Instruction::Binary {
                op: BinOp::Or,
                op1: Operand { value: 0, is_constant: false },
                op2: Operand { value: 1, is_constant: false },
            },
            // o3 = x ^ y
            Instruction::Binary {
                op: BinOp::Xor,
                op1: Operand { value: 0, is_constant: false },
                op2: Operand { value: 1, is_constant: false },
            },
            // o4 = o3 >> 1
            Instruction::Binary {
                op: BinOp::Shr,
                op1: Operand { value: 3, is_constant: false },
                op2: Operand { value: 1, is_constant: true },
            },
            // res = o2 - o4
            Instruction::Binary {
                op: BinOp::Sub,
                op1: Operand { value: 2, is_constant: false },
                op2: Operand { value: 4, is_constant: false },
            },
        ],
    );

    // Maximum of two integers.
    programs.push(
        vec![
            // o2 = x ^ y
            Instruction::Binary {
                op: BinOp::Xor,
                op1: Operand { value: 0, is_constant: false },
                op2: Operand { value: 1, is_constant: false },
            },
            // o3 = x >= y
            Instruction::Binary {
                op: BinOp::Uge,
                op1: Operand { value: 0, is_constant: false },
                op2: Operand { value: 1, is_constant: false },
            },
            // o4 = -o3
            Instruction::Unary { op: UnOp::Neg, op1: Operand { value: 3, is_constant: false } },
            // o5 = o2 & o4
            Instruction::Binary {
                op: BinOp::And,
                op1: Operand { value: 2, is_constant: false },
                op2: Operand { value: 4, is_constant: false },
            },
            // res = o5 ^ y
            Instruction::Binary {
                op: BinOp::Xor,
                op1: Operand { value: 5, is_constant: false },
                op2: Operand { value: 1, is_constant: false },
            },
        ],
    );

    programs
}

} // verus!
