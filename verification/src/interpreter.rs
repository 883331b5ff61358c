//! The meaning of instructions and programs, and the interpreter that
//! computes it.
//!
//! All arithmetic is 32-bit two's complement with silent wraparound. The
//! comparison opcodes order their operands as signed integers and yield 1 or
//! 0. Division truncates toward zero, and a divisor of zero yields 0.

use crate::instruction::{well_formed, BinOp, Instruction, Operand, Program, UnOp};
use vstd::prelude::*;

verus! {

/// The 32-bit two's-complement integer that is congruent to `v` modulo 2^32.
pub open spec fn wrap32(v: int) -> i32 {
    let r = v % 0x1_0000_0000;
    if r > 0x7fff_ffff {
        (r - 0x1_0000_0000) as i32
    } else {
        r as i32
    }
}

/// The quotient of `a` by a non-zero `b`, rounded toward zero.
///
/// Division on `int` leaves a remainder that is never negative, so the
/// quotient of a negative dividend is taken on its magnitude and negated.
pub open spec fn truncated_quotient(a: int, b: int) -> int {
    if a >= 0 {
        a / b
    } else {
        -((-a) / b)
    }
}

/// The integer that stands for a truth value: 1 for true, 0 for false.
pub open spec fn truth(holds: bool) -> i32 {
    if holds {
        1
    } else {
        0
    }
}

impl BinOp {
    /// The result of the opcode on the operand values `a` and `b`.
    pub open spec fn apply(self, a: i32, b: i32) -> i32 {
        match self {
            BinOp::Add => wrap32(a + b),
            BinOp::Sub => wrap32(a - b),
            BinOp::Div => if b == 0 {
                0
            } else {
                wrap32(truncated_quotient(a as int, b as int))
            },
            BinOp::And => a & b,
            BinOp::Xor => a ^ b,
            BinOp::Or => a | b,
            BinOp::Shr => a >> (b & 31),
            BinOp::Ule => truth(a <= b),
            BinOp::Ugt => truth(a > b),
            BinOp::Uge => truth(a >= b),
        }
    }
}

impl UnOp {
    /// The result of the opcode on the operand value `a`.
    pub open spec fn apply(self, a: i32) -> i32 {
        match self {
            UnOp::Neg => wrap32(-a),
            UnOp::Not => !a,
        }
    }
}

impl Operand {
    /// The integer the operand stands for on `tape`: the literal itself, or
    /// the content of the slot it names.
    pub open spec fn value_on(self, tape: Seq<i32>) -> i32 {
        if self.is_constant {
            self.value
        } else {
            tape[self.value as int]
        }
    }
}

impl Instruction {
    /// The value the instruction computes from `tape`.
    pub open spec fn result_on(self, tape: Seq<i32>) -> i32 {
        match self {
            Instruction::Binary { op, op1, op2 } => op.apply(
                op1.value_on(tape),
                op2.value_on(tape),
            ),
            Instruction::Unary { op, op1 } => op.apply(op1.value_on(tape)),
        }
    }
}

/// The tape after `program` has run on `input`: the two inputs, followed by
/// the result of each instruction in order.
pub open spec fn tape_after(program: Seq<Instruction>, input: (i32, i32)) -> Seq<i32>
    decreases program.len(),
{
    if program.len() == 0 {
        seq![input.0, input.1]
    } else {
        let before = tape_after(program.drop_last(), input);
        before.push(program.last().result_on(before))
    }
}

/// The output of `program` on `input`: the last entry of its tape.
pub open spec fn program_output(program: Seq<Instruction>, input: (i32, i32)) -> i32 {
    tape_after(program, input).last()
}

/// The tape holds the two inputs and one entry for each instruction.
pub proof fn lemma_tape_len(program: Seq<Instruction>, input: (i32, i32))
    ensures
        tape_after(program, input).len() == program.len() + 2,
    decreases program.len(),
{
    if program.len() > 0 {
        lemma_tape_len(program.drop_last(), input);
    }
}

/// Running one more instruction appends its result to the tape and leaves
/// the earlier entries as they were.
pub proof fn lemma_tape_push(program: Seq<Instruction>, inst: Instruction, input: (i32, i32))
    ensures
        tape_after(program.push(inst), input) == tape_after(program, input).push(
            inst.result_on(tape_after(program, input)),
        ),
{
    assert(program.push(inst).drop_last() =~= program);
}

/// Dividing by a divisor whose run-time value is zero yields zero, whatever
/// the dividend and wherever the divisor comes from.
pub proof fn lemma_division_by_zero(op1: Operand, op2: Operand, tape: Seq<i32>)
    requires
        op2.value_on(tape) == 0,
    ensures
        (Instruction::Binary { op: BinOp::Div, op1, op2 }).result_on(tape) == 0,
{
}

/// The output of a run is a function of the program and the input pair
/// alone: two runs of equal programs on equal inputs give equal outputs.
pub proof fn lemma_simulation_is_deterministic(
    first: Seq<Instruction>,
    second: Seq<Instruction>,
    first_input: (i32, i32),
    second_input: (i32, i32),
)
    requires
        first =~= second,
        first_input == second_input,
    ensures
        tape_after(first, first_input) == tape_after(second, second_input),
        program_output(first, first_input) == program_output(second, second_input),
{
}

/// Resolves an operand against the tape.
fn operand_value(op: &Operand, operands: &Vec<i32>) -> (val: i32)
    requires
        op.resolves(operands.len() as int),
    ensures
        val == op.value_on(operands@),
{
    if op.is_constant {
        op.value
    } else {
        operands[op.value as usize]
    }
}

/// The truncated quotient of two 32-bit integers fits in 32 bits, except for
/// the most negative integer divided by -1, which wraps back to itself.
proof fn lemma_quotient_wraps(a: i32, b: i32)
    requires
        b != 0,
    ensures
        a == i32::MIN && b == -1 ==> wrap32(truncated_quotient(a as int, b as int)) == i32::MIN,
        !(a == i32::MIN && b == -1) ==> wrap32(truncated_quotient(a as int, b as int))
            == truncated_quotient(a as int, b as int),
{
    let x = a as int;
    let d = b as int;
    if a == i32::MIN && b == -1 {
        assert(truncated_quotient(x, d) == 0x8000_0000int) by (nonlinear_arith)
            requires
                x == -0x8000_0000int,
                d == -1int,
        ;
    } else {
        let q = truncated_quotient(x, d);
        assert(-0x8000_0000 <= q <= 0x7fff_ffff) by (nonlinear_arith)
            requires
                -0x8000_0000 <= x <= 0x7fff_ffff,
                -0x8000_0000 <= d <= 0x7fff_ffff,
                d != 0,
                !(x == -0x8000_0000 && d == -1),
                q == if x >= 0 {
                    x / d
                } else {
                    -((-x) / d)
                },
        ;
    }
}

/// Computes a binary opcode on two operand values.
fn execute_binary(op: BinOp, val1: i32, val2: i32) -> (res: i32)
    ensures
        res == op.apply(val1, val2),
{
    match op {
        BinOp::Add => val1.wrapping_add(val2),
        BinOp::Sub => val1.wrapping_sub(val2),
        BinOp::And => val1 & val2,
        BinOp::Xor => val1 ^ val2,
        BinOp::Or => val1 | val2,
        BinOp::Shr => {
            assert(0 <= (val2 & 31) < 32) by (bit_vector);
            val1 >> (val2 & 31)
        },
        BinOp::Ule => if val1 <= val2 {
            1
        } else {
            0
        },
        BinOp::Ugt => if val1 > val2 {
            1
        } else {
            0
        },
        BinOp::Uge => if val1 >= val2 {
            1
        } else {
            0
        },
        BinOp::Div => {
            if val2 == 0 {
                0
            } else {
                proof {
                    lemma_quotient_wraps(val1, val2);
                }
                if val1 == i32::MIN && val2 == -1 {
                    i32::MIN
                } else {
                    val1 / val2
                }
            }
        },
    }
}

/// Computes a unary opcode on an operand value.
fn execute_unary(op: UnOp, val1: i32) -> (res: i32)
    ensures
        res == op.apply(val1),
{
    match op {
        UnOp::Neg => 0i32.wrapping_sub(val1),
        UnOp::Not => !val1,
    }
}

/// Computes the result of one instruction on the current tape.
pub fn execute_instruction(inst: &Instruction, operands: &Vec<i32>) -> (res: i32)
    requires
        inst.resolves(operands.len() as int),
    ensures
        res == inst.result_on(operands@),
        inst matches Instruction::Binary { op: BinOp::Div, op2, .. } && op2.value_on(operands@)
            == 0 ==> res == 0,
{
    match inst {
        Instruction::Binary { op, op1, op2 } => {
            let val1: i32 = operand_value(op1, operands);
            let val2: i32 = operand_value(op2, operands);
            execute_binary(*op, val1, val2)
        },
        Instruction::Unary { op, op1 } => {
            let val1: i32 = operand_value(op1, operands);
            execute_unary(*op, val1)
        },
    }
}

/// Runs `program` on the input pair and returns its output.
///
/// The tape starts as the two inputs; each instruction appends its result;
/// the output is the last entry.
pub fn simulate_program(program: &Program, input: (i32, i32)) -> (out: i32)
    requires
        well_formed(program@),
    ensures
        out == program_output(program@, input),
{
    let mut operands: Vec<i32> = vec![input.0, input.1];
    for i in 0..program.len()
        invariant
            well_formed(program@),
            operands@ == tape_after(program@.take(i as int), input),
    {
        proof {
            lemma_tape_len(program@.take(i as int), input);
        }
        let res: i32 = execute_instruction(&program[i], &operands);
        proof {
            assert(program@.take(i + 1) =~= program@.take(i as int).push(program@[i as int]));
            lemma_tape_push(program@.take(i as int), program@[i as int], input);
        }
        operands.push(res);
    }
    assert(program@.take(program.len() as int) =~= program@);
    operands[operands.len() - 1]
}

} // verus!
