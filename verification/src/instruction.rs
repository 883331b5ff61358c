//! The instruction vocabulary of the straight-line bit-manipulation language.
//!
//! A program is a sequence of instructions that runs against a value tape. The
//! tape starts with the two inputs, and each instruction appends its result.
//! An operand is either a literal or the index of a tape slot.

use vstd::prelude::*;

verus! {

/// The binary opcodes, in the order in which the search tries them.
#[derive(Clone, Copy, Debug, PartialEq, Eq, Hash, Structural)]
pub enum BinOp {
    /// Addition, wrapping around on overflow.
    Add,
    /// Subtraction, wrapping around on overflow.
    Sub,
    /// Division rounded toward zero; zero when the divisor is zero.
    Div,
    /// Bitwise conjunction.
    And,
    /// Bitwise exclusive disjunction.
    Xor,
    /// Bitwise disjunction.
    Or,
    /// Right shift that keeps the sign, by the amount taken modulo 32.
    Shr,
    /// 1 when the first operand is at most the second, else 0; the operands
    /// are ordered as signed integers.
    Ule,
    /// 1 when the first operand is greater than the second, else 0; the
    /// operands are ordered as signed integers.
    Ugt,
    /// 1 when the first operand is at least the second, else 0; the
    /// operands are ordered as signed integers.
    Uge,
}

/// The unary opcodes, in the order in which the search tries them.
#[derive(Clone, Copy, Debug, PartialEq, Eq, Hash, Structural)]
pub enum UnOp {
    /// Negation, wrapping around on overflow.
    Neg,
    /// Bitwise complement.
    Not,
}

/// What an instruction computes on: a literal, or the content of a tape
/// slot.
#[derive(Clone, Copy, Debug, PartialEq, Eq, Hash, Structural)]
pub struct Operand {
    /// The literal itself, or the index of the tape slot.
    pub value: i32,
    /// Whether `value` is a literal rather than a slot index.
    pub is_constant: bool,
}

/// One step of a program: an opcode with its operands.
#[allow(inconsistent_fields)]
#[derive(Clone, Copy, Debug, PartialEq, Eq, Hash, Structural)]
pub enum Instruction {
    Binary { op: BinOp, op1: Operand, op2: Operand },
    Unary { op: UnOp, op1: Operand },
}

/// A straight-line program: its instructions in execution order.
pub type Program = Vec<Instruction>;

/// The unary opcodes in the order in which the search tries them.
pub open spec fn unary_opcodes() -> Seq<UnOp> {
    seq![UnOp::Neg, UnOp::Not]
}

/// The binary opcodes in the order in which the search tries them.
pub open spec fn binary_opcodes() -> Seq<BinOp> {
    seq![
        BinOp::Add,
        BinOp::Sub,
        BinOp::Div,
        BinOp::And,
        BinOp::Xor,
        BinOp::Or,
        BinOp::Shr,
        BinOp::Ule,
        BinOp::Ugt,
        BinOp::Uge,
    ]
}

impl UnOp {
    /// Every unary opcode, in the order in which the search tries them.
    pub fn all() -> (ops: Vec<UnOp>)
        ensures
            ops@ == unary_opcodes(),
    {
        vec![UnOp::Neg, UnOp::Not]
    }
}

impl BinOp {
    /// Every binary opcode, in the order in which the search tries them.
    pub fn all() -> (ops: Vec<BinOp>)
        ensures
            ops@ == binary_opcodes(),
    {
        vec![
            BinOp::Add,
            BinOp::Sub,
            BinOp::Div,
            BinOp::And,
            BinOp::Xor,
            BinOp::Or,
            BinOp::Shr,
            BinOp::Ule,
            BinOp::Ugt,
            BinOp::Uge,
        ]
    }
}

/// The operand that reads tape slot `index`.
pub open spec fn slot(index: int) -> Operand {
    Operand { value: index as i32, is_constant: false }
}

/// The operand that stands for the literal `value`.
pub open spec fn literal(value: i32) -> Operand {
    Operand { value, is_constant: true }
}

impl Operand {
    /// A literal always resolves; a slot reference resolves on a tape of
    /// `tape_len` entries when its index lies inside the tape.
    pub open spec fn resolves(self, tape_len: int) -> bool {
        self.is_constant || 0 <= self.value < tape_len
    }
}

impl Instruction {
    /// Every operand of the instruction resolves on a tape of `tape_len`
    /// entries.
    pub open spec fn resolves(self, tape_len: int) -> bool {
        match self {
            Instruction::Binary { op1, op2, .. } => op1.resolves(tape_len) && op2.resolves(
                tape_len,
            ),
            Instruction::Unary { op1, .. } => op1.resolves(tape_len),
        }
    }
}

/// A program is well formed when each instruction only reads tape slots that
/// exist when it runs: the two inputs and the results of earlier instructions.
pub open spec fn well_formed(program: Seq<Instruction>) -> bool {
    forall|i: int| 0 <= i < program.len() ==> (#[trigger] program[i]).resolves(i + 2)
}

impl Operand {
    /// Tests whether the operand resolves on a tape that holds `last + 1`
    /// entries.
    fn resolves_through(&self, last: usize) -> (ok: bool)
        ensures
            ok == self.resolves(last + 1),
    {
        self.is_constant || (self.value >= 0 && self.value as usize <= last)
    }
}

/// Tests whether each instruction of the program only reads tape slots that
/// exist when it runs.
pub fn is_well_formed(program: &Program) -> (ok: bool)
    ensures
        ok == well_formed(program@),
{
    for i in 0..program.len()
        invariant
            forall|j: int| 0 <= j < i ==> (#[trigger] program@[j]).resolves(j + 2),
    {
        let ok = match &program[i] {
            Instruction::Binary { op1, op2, .. } => op1.resolves_through(i + 1)
                && op2.resolves_through(i + 1),
            Instruction::Unary { op1, .. } => op1.resolves_through(i + 1),
        };
        if !ok {
            return false;
        }
    }
    true
}

} // verus!
