//! The candidate generator: every instruction that the search may place at
//! a given depth, in the order in which the search tries them.
//!
//! At depth `d` the tape holds `d + 2` entries. The generator offers each
//! unary opcode on each slot, and each binary opcode on each ordered pair of
//! slots and on each slot paired with a literal of the constant pool. A
//! literal never stands first, a shift amount is always a literal, and a
//! literal zero never stands as a divisor.

use crate::instruction::{
    binary_opcodes, literal, slot, unary_opcodes, BinOp, Instruction, Operand, UnOp,
};
use crate::search_space::{lemma_candidates_are_pruned, lemma_candidates_resolve, obeys_pruning};
use vstd::prelude::*;

verus! {

/// The literals that the search offers as second operands.
pub open spec fn constant_pool() -> Seq<i32> {
    seq![1i32, 31i32, 2i32]
}

/// `op` applied to each of the first `slots` tape slots, lowest slot first.
pub open spec fn unary_candidates(op: UnOp, slots: nat) -> Seq<Instruction> {
    Seq::new(slots, |i: int| Instruction::Unary { op, op1: slot(i) })
}

/// The unary candidates of each opcode in `ops`, opcode by opcode.
pub open spec fn unary_part(ops: Seq<UnOp>, slots: nat) -> Seq<Instruction> {
    ops.map_values(|op: UnOp| unary_candidates(op, slots)).flatten()
}

/// Slot `first` paired with each of the `slots` tape slots.
pub open spec fn slot_row(first: int, slots: nat) -> Seq<(Operand, Operand)> {
    Seq::new(slots, |j: int| (slot(first), slot(j)))
}

/// The slot rows of the first `rows` slots, one after the other.
pub open spec fn slot_rows(rows: nat, slots: nat) -> Seq<(Operand, Operand)> {
    Seq::new(rows, |i: int| slot_row(i, slots)).flatten()
}

/// Slot `first` paired with each literal of `pool`.
pub open spec fn literal_row(first: int, pool: Seq<i32>) -> Seq<(Operand, Operand)> {
    Seq::new(pool.len(), |k: int| (slot(first), literal(pool[k])))
}

/// The literal rows of the first `rows` slots, one after the other.
pub open spec fn literal_rows(rows: nat, pool: Seq<i32>) -> Seq<(Operand, Operand)> {
    Seq::new(rows, |i: int| literal_row(i, pool)).flatten()
}

/// The operand pairs that a binary opcode is tried on: every ordered pair of
/// slots, then every slot paired with every literal of the pool.
pub open spec fn operand_pairs(slots: nat, pool: Seq<i32>) -> Seq<(Operand, Operand)> {
    slot_rows(slots, slots) + literal_rows(slots, pool)
}

/// The pruning rule: a shift takes a literal amount, and a division does not
/// take a literal zero as divisor.
pub open spec fn admits(op: BinOp, pair: (Operand, Operand)) -> bool {
    &&& op == BinOp::Shr ==> pair.1.is_constant
    &&& op == BinOp::Div ==> !(pair.1.is_constant && pair.1.value == 0)
}

/// `admits` for a fixed opcode, as a predicate on operand pairs.
pub open spec fn admitted_by(op: BinOp) -> spec_fn((Operand, Operand)) -> bool {
    |pair: (Operand, Operand)| admits(op, pair)
}

/// The map from an operand pair to the instruction that applies `op` to it.
pub open spec fn applied_to(op: BinOp) -> spec_fn((Operand, Operand)) -> Instruction {
    |pair: (Operand, Operand)| Instruction::Binary { op, op1: pair.0, op2: pair.1 }
}

/// `op` applied to each of `pairs` that the pruning rule admits, in order.
pub open spec fn binary_over(op: BinOp, pairs: Seq<(Operand, Operand)>) -> Seq<Instruction> {
    pairs.filter(admitted_by(op)).map_values(applied_to(op))
}

/// The candidates of each opcode in `ops` over `pairs`, opcode by opcode.
pub open spec fn binary_part(ops: Seq<BinOp>, pairs: Seq<(Operand, Operand)>) -> Seq<
    Instruction,
> {
    ops.map_values(|op: BinOp| binary_over(op, pairs)).flatten()
}

/// The candidates at `depth` for a search whose literals are `pool`: the
/// unary instructions, then the binary ones.
pub open spec fn candidates_with(pool: Seq<i32>, depth: nat) -> Seq<Instruction> {
    unary_part(unary_opcodes(), depth + 2) + binary_part(
        binary_opcodes(),
        operand_pairs(depth + 2, pool),
    )
}

/// The candidates at `depth` with the standard constant pool.
pub open spec fn candidates(depth: nat) -> Seq<Instruction> {
    candidates_with(constant_pool(), depth)
}

/// The standard constant pool.
pub fn constants() -> (pool: Vec<i32>)
    ensures
        pool@ == constant_pool(),
{
    vec![1, 31, 2]
}

/// The operand that reads tape slot `index`.
fn slot_operand(index: usize) -> (op: Operand)
    requires
        index <= i32::MAX,
    ensures
        op == slot(index as int),
{
    Operand { value: index as i32, is_constant: false }
}

/// The pruning rule on the second operand of a binary instruction.
fn is_admitted(op: BinOp, op2: &Operand) -> (admitted: bool)
    ensures
        forall|op1: Operand| admitted == #[trigger] admits(op, (op1, *op2)),
{
    // A shift is only tried with a literal amount.
    if op == BinOp::Shr && !op2.is_constant {
        return false;
    }
    // A literal zero is never tried as a divisor.
    if op == BinOp::Div && op2.is_constant && op2.value == 0 {
        return false;
    }
    true
}

/// The operand pairs that each binary opcode is tried on.
fn collect_operand_pairs(slots: usize, pool: &Vec<i32>) -> (pairs: Vec<(Operand, Operand)>)
    requires
        slots <= i32::MAX,
    ensures
        pairs@ == operand_pairs(slots as nat, pool@),
{
    let mut pairs: Vec<(Operand, Operand)> = Vec::new();
    for i in 0..slots
        invariant
            slots <= i32::MAX,
            pairs@ == slot_rows(i as nat, slots as nat),
    {
        for j in 0..slots
            invariant
                i < slots <= i32::MAX,
                pairs@ == slot_rows(i as nat, slots as nat) + slot_row(i as int, slots as nat).take(
                    j as int,
                ),
        {
            pairs.push((slot_operand(i), slot_operand(j)));
        }
        proof {
            lemma_slot_rows_step(i as nat, slots as nat);
        }
    }
    for i in 0..slots
        invariant
            slots <= i32::MAX,
            pairs@ == slot_rows(slots as nat, slots as nat) + literal_rows(i as nat, pool@),
    {
        for k in 0..pool.len()
            invariant
                i < slots <= i32::MAX,
                pairs@ == slot_rows(slots as nat, slots as nat) + literal_rows(i as nat, pool@)
                    + literal_row(i as int, pool@).take(k as int),
        {
            pairs.push((slot_operand(i), Operand { value: pool[k], is_constant: true }));
        }
        proof {
            lemma_literal_rows_step(i as nat, pool@);
        }
    }
    pairs
}

/// Every instruction that may stand at `depth` when the search draws its
/// literals from `pool`, in the order in which the search tries them.
pub fn possible_instructions_with(depth: usize, pool: &Vec<i32>) -> (instructions: Vec<Instruction>)
    requires
        depth + 2 <= i32::MAX,
    ensures
        instructions@ == candidates_with(pool@, depth as nat),
        forall|k: int|
            0 <= k < instructions.len() ==> obeys_pruning(#[trigger] instructions[k])
                && instructions[k].resolves(depth + 2),
{
    let slots: usize = depth + 2;
    let mut instructions: Vec<Instruction> = Vec::new();
    let unops = UnOp::all();
    for u in 0..unops.len()
        invariant
            slots <= i32::MAX,
            instructions@ == unary_part(unops@.take(u as int), slots as nat),
    {
        let unop = unops[u];
        for i in 0..slots
            invariant
                slots <= i32::MAX,
                u < unops.len(),
                unop == unops@[u as int],
                instructions@ == unary_part(unops@.take(u as int), slots as nat)
                    + unary_candidates(unop, slots as nat).take(i as int),
        {
            instructions.push(Instruction::Unary { op: unop, op1: slot_operand(i) });
        }
        proof {
            assert(unops@.take(u + 1) =~= unops@.take(u as int).push(unop));
            lemma_unary_part_push(unops@.take(u as int), unop, slots as nat);
        }
    }
    assert(unops@.take(unops.len() as int) =~= unops@);

    let pairs = collect_operand_pairs(slots, pool);
    let binops = BinOp::all();
    let ghost unary = instructions@;
    for b in 0..binops.len()
        invariant
            instructions@ == unary + binary_part(binops@.take(b as int), pairs@),
    {
        let binop = binops[b];
        for k in 0..pairs.len()
            invariant
                b < binops.len(),
                binop == binops@[b as int],
                instructions@ == unary + binary_part(binops@.take(b as int), pairs@) + binary_over(
                    binop,
                    pairs@.take(k as int),
                ),
        {
            let (op1, op2) = pairs[k];
            proof {
                assert(pairs@.take(k + 1) =~= pairs@.take(k as int).push(pairs@[k as int]));
                lemma_binary_over_push(binop, pairs@.take(k as int), pairs@[k as int]);
            }
            if is_admitted(binop, &op2) {
                instructions.push(Instruction::Binary { op: binop, op1, op2 });
            }
        }
        proof {
            assert(pairs@.take(pairs.len() as int) =~= pairs@);
            assert(binops@.take(b + 1) =~= binops@.take(b as int).push(binop));
            lemma_binary_part_push(binops@.take(b as int), binop, pairs@);
        }
    }
    assert(binops@.take(binops.len() as int) =~= binops@);
    proof {
        assert forall|k: int| 0 <= k < instructions.len() implies obeys_pruning(
            #[trigger] instructions[k],
        ) && instructions[k].resolves(depth + 2) by {
            lemma_candidates_are_pruned(pool@, depth as nat, k);
            lemma_candidates_resolve(pool@, depth as nat, k);
        }
    }
    instructions
}

/// Every instruction that may stand at `depth`, in the order in which the
/// search tries them, with the standard constant pool.
pub fn possible_instructions(depth: usize) -> (instructions: Vec<Instruction>)
    requires
        depth + 2 <= i32::MAX,
    ensures
        instructions@ == candidates(depth as nat),
        forall|k: int|
            0 <= k < instructions.len() ==> obeys_pruning(#[trigger] instructions[k])
                && instructions[k].resolves(depth + 2),
{
    let pool = constants();
    possible_instructions_with(depth, &pool)
}

/// One more unary opcode adds its candidates at the end.
proof fn lemma_unary_part_push(ops: Seq<UnOp>, op: UnOp, slots: nat)
    ensures
        unary_part(ops.push(op), slots) == unary_part(ops, slots) + unary_candidates(op, slots),
{
    let f = |op: UnOp| unary_candidates(op, slots);
    assert(ops.push(op).map_values(f) =~= ops.map_values(f).push(f(op)));
    ops.map_values(f).lemma_flatten_push(f(op));
}

/// One more binary opcode adds its candidates at the end.
proof fn lemma_binary_part_push(ops: Seq<BinOp>, op: BinOp, pairs: Seq<(Operand, Operand)>)
    ensures
        binary_part(ops.push(op), pairs) == binary_part(ops, pairs) + binary_over(op, pairs),
{
    let f = |op: BinOp| binary_over(op, pairs);
    assert(ops.push(op).map_values(f) =~= ops.map_values(f).push(f(op)));
    ops.map_values(f).lemma_flatten_push(f(op));
}

/// One more slot row adds its pairs at the end.
proof fn lemma_slot_rows_step(rows: nat, slots: nat)
    ensures
        slot_rows(rows + 1, slots) == slot_rows(rows, slots) + slot_row(rows as int, slots),
{
    let f = |i: int| slot_row(i, slots);
    assert(Seq::new(rows + 1, f) =~= Seq::new(rows, f).push(f(rows as int)));
    Seq::new(rows, f).lemma_flatten_push(f(rows as int));
}

/// One more literal row adds its pairs at the end.
proof fn lemma_literal_rows_step(rows: nat, pool: Seq<i32>)
    ensures
        literal_rows(rows + 1, pool) == literal_rows(rows, pool) + literal_row(rows as int, pool),
{
    let f = |i: int| literal_row(i, pool);
    assert(Seq::new(rows + 1, f) =~= Seq::new(rows, f).push(f(rows as int)));
    Seq::new(rows, f).lemma_flatten_push(f(rows as int));
}

/// One more operand pair adds its instruction at the end when the pruning
/// rule admits it, and nothing otherwise.
proof fn lemma_binary_over_push(
    op: BinOp,
    pairs: Seq<(Operand, Operand)>,
    pair: (Operand, Operand),
)
    ensures
        binary_over(op, pairs.push(pair)) == if admits(op, pair) {
            binary_over(op, pairs).push(Instruction::Binary { op, op1: pair.0, op2: pair.1 })
        } else {
            binary_over(op, pairs)
        },
{
    pairs.lemma_filter_push(pair, admitted_by(op));
    if admits(op, pair) {
    }
}

} // verus!
