//! The textual form of operands and instructions, for display.
//!
//! An instruction reads as its opcode's name followed by its operands in
//! parentheses. A literal reads as its decimal value; a tape slot reads as
//! `o` followed by its index.

use crate::instruction::{BinOp, Instruction, Operand, Program, UnOp};
use vstd::prelude::*;
use vstd::string::StringExecFns;

verus! {

/// The character of the decimal digit `d`.
pub open spec fn digit(d: int) -> char {
    if d == 0 {
        '0'
    } else if d == 1 {
        '1'
    } else if d == 2 {
        '2'
    } else if d == 3 {
        '3'
    } else if d == 4 {
        '4'
    } else if d == 5 {
        '5'
    } else if d == 6 {
        '6'
    } else if d == 7 {
        '7'
    } else if d == 8 {
        '8'
    } else {
        '9'
    }
}

/// The decimal digits of `n`, most significant first, without leading
/// zeros.
pub open spec fn decimal_digits(n: nat) -> Seq<char>
    decreases n,
{
    if n < 10 {
        seq![digit(n as int)]
    } else {
        decimal_digits(n / 10).push(digit((n % 10) as int))
    }
}

/// The decimal form of `v`, with a leading minus sign when `v` is negative.
pub open spec fn decimal(v: int) -> Seq<char> {
    if v < 0 {
        seq!['-'] + decimal_digits((-v) as nat)
    } else {
        decimal_digits(v as nat)
    }
}

/// The name of a binary opcode.
pub open spec fn binop_name(op: BinOp) -> Seq<char> {
    match op {
        BinOp::Add => "Add"@,
        BinOp::Sub => "Sub"@,
        BinOp::Div => "Div"@,
        BinOp::And => "And"@,
        BinOp::Xor => "Xor"@,
        BinOp::Or => "Or"@,
        BinOp::Shr => "Shr"@,
        BinOp::Ule => "Ule"@,
        BinOp::Ugt => "Ugt"@,
        BinOp::Uge => "Uge"@,
    }
}

/// The name of a unary opcode.
pub open spec fn unop_name(op: UnOp) -> Seq<char> {
    match op {
        UnOp::Neg => "Neg"@,
        UnOp::Not => "Not"@,
    }
}

/// The text of an operand: the decimal value of a literal, or `o` and the
/// index of a slot.
pub open spec fn operand_text(op: Operand) -> Seq<char> {
    if op.is_constant {
        decimal(op.value as int)
    } else {
        "o"@ + decimal(op.value as int)
    }
}

/// The text of an instruction: the opcode's name, then the operands in
/// parentheses, separated by a comma and a space.
pub open spec fn instruction_text(inst: Instruction) -> Seq<char> {
    match inst {
        Instruction::Binary { op, op1, op2 } => binop_name(op) + "("@ + operand_text(op1) + ", "@
            + operand_text(op2) + ")"@,
        Instruction::Unary { op, op1 } => unop_name(op) + "("@ + operand_text(op1) + ")"@,
    }
}

/// The one-character text of a decimal digit.
fn digit_text(d: u32) -> (text: &'static str)
    requires
        d < 10,
    ensures
        text@ == seq![digit(d as int)],
{
    proof {
        reveal_strlit("0");
        reveal_strlit("1");
        reveal_strlit("2");
        reveal_strlit("3");
        reveal_strlit("4");
        reveal_strlit("5");
        reveal_strlit("6");
        reveal_strlit("7");
        reveal_strlit("8");
        reveal_strlit("9");
    }
    if d == 0 {
        "0"
    } else if d == 1 {
        "1"
    } else if d == 2 {
        "2"
    } else if d == 3 {
        "3"
    } else if d == 4 {
        "4"
    } else if d == 5 {
        "5"
    } else if d == 6 {
        "6"
    } else if d == 7 {
        "7"
    } else if d == 8 {
        "8"
    } else {
        "9"
    }
}

/// Renders a natural number in decimal.
fn show_digits(n: u32) -> (text: String)
    ensures
        text@ == decimal_digits(n as nat),
    decreases n,
{
    if n < 10 {
        String::from_str(digit_text(n))
    } else {
        let mut text = show_digits(n / 10);
        text.append(digit_text(n % 10));
        text
    }
}

/// Renders an integer in decimal.
fn show_integer(v: i32) -> (text: String)
    ensures
        text@ == decimal(v as int),
{
    if v < 0 {
        let magnitude: u32 = (-(v as i64)) as u32;
        let digits = show_digits(magnitude);
        let mut text = String::from_str("-");
        text.append(digits.as_str());
        proof {
            reveal_strlit("-");
        }
        text
    } else {
        show_digits(v as u32)
    }
}

/// The name of a binary opcode.
fn show_binop(op: BinOp) -> (name: &'static str)
    ensures
        name@ == binop_name(op),
{
    match op {
        BinOp::Add => "Add",
        BinOp::Sub => "Sub",
        BinOp::Div => "Div",
        BinOp::And => "And",
        BinOp::Xor => "Xor",
        BinOp::Or => "Or",
        BinOp::Shr => "Shr",
        BinOp::Ule => "Ule",
        BinOp::Ugt => "Ugt",
        BinOp::Uge => "Uge",
    }
}

/// The name of a unary opcode.
fn show_unop(op: UnOp) -> (name: &'static str)
    ensures
        name@ == unop_name(op),
{
    match op {
        UnOp::Neg => "Neg",
        UnOp::Not => "Not",
    }
}

/// Renders an operand.
pub fn show_operand(op: &Operand) -> (text: String)
    ensures
        text@ == operand_text(*op),
{
    if op.is_constant {
        show_integer(op.value)
    } else {
        let mut text = String::from_str("o");
        text.append(show_integer(op.value).as_str());
        text
    }
}

/// Renders an instruction.
pub fn show_instruction(inst: &Instruction) -> (text: String)
    ensures
        text@ == instruction_text(*inst),
{
    match inst {
        Instruction::Binary { op, op1, op2 } => {
            let mut text = String::from_str(show_binop(*op));
            text.append("(");
            text.append(show_operand(op1).as_str());
            text.append(", ");
            text.append(show_operand(op2).as_str());
            text.append(")");
            text
        },
        Instruction::Unary { op, op1 } => {
            let mut text = String::from_str(show_unop(*op));
            text.append("(");
            text.append(show_operand(op1).as_str());
            text.append(")");
            text
        },
    }
}

/// Renders a program: one line of text for each instruction, in order.
pub fn show_program(program: &Program) -> (lines: Vec<String>)
    ensures
        lines.len() == program.len(),
        forall|i: int|
            0 <= i < lines.len() ==> (#[trigger] lines[i])@ == instruction_text(program[i]),
{
    let mut lines: Vec<String> = Vec::new();
    for n in 0..program.len()
        invariant
            lines.len() == n,
            forall|i: int| 0 <= i < lines.len() ==> (#[trigger] lines[i])@ == instruction_text(
                program[i],
            ),
    {
        lines.push(show_instruction(&program[n]));
    }
    lines
}

} // verus!
