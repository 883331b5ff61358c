//! What the generator offers, said as a set: the shape of the instructions
//! of the search space, the pruning rules they obey, and their number.

use crate::generator::{
    admits, admitted_by, applied_to, binary_over, binary_part, candidates, candidates_with,
    constant_pool, literal_row, literal_rows, operand_pairs, slot_row, slot_rows,
    unary_candidates, unary_part,
};
use crate::instruction::{
    binary_opcodes, literal, slot, unary_opcodes, BinOp, Instruction, Operand, UnOp,
};
use crate::sequences::{
    lemma_filter_drops_all, lemma_filter_keeps_all, lemma_flatten_contains, lemma_flatten_entry,
    lemma_flatten_uniform_len,
};
use vstd::prelude::*;

verus! {

/// The operand reads one of the first `slots` tape slots.
pub open spec fn reads_slot_below(operand: Operand, slots: nat) -> bool {
    !operand.is_constant && 0 <= operand.value < slots
}

/// The pruning rules on one instruction: a unary instruction does not take
/// a literal, a binary instruction does not take a literal first, a shift
/// takes a literal amount, and a division does not take a literal zero as
/// divisor.
pub open spec fn obeys_pruning(inst: Instruction) -> bool {
    match inst {
        Instruction::Unary { op, op1 } => !op1.is_constant,
        Instruction::Binary { op, op1, op2 } => {
            &&& !op1.is_constant
            &&& op == BinOp::Shr ==> op2.is_constant
            &&& op == BinOp::Div ==> !(op2.is_constant && op2.value == 0)
        },
    }
}

/// What the generator offers at `depth`, said without regard to order.
///
/// A unary instruction reads an existing slot. A binary instruction reads an
/// existing slot first; its second operand is an existing slot, unless the
/// opcode is a shift, or a literal of the pool, unless that is a zero
/// divisor.
pub open spec fn in_search_space(inst: Instruction, pool: Seq<i32>, depth: nat) -> bool {
    match inst {
        Instruction::Unary { op, op1 } => reads_slot_below(op1, depth + 2),
        Instruction::Binary { op, op1, op2 } => {
            &&& reads_slot_below(op1, depth + 2)
            &&& if op2.is_constant {
                pool.contains(op2.value) && !(op == BinOp::Div && op2.value == 0)
            } else {
                reads_slot_below(op2, depth + 2) && op != BinOp::Shr
            }
        },
    }
}

/// The opcode lists leave no opcode out.
proof fn lemma_every_opcode_listed()
    ensures
        forall|op: UnOp| unary_opcodes().contains(op),
        forall|op: BinOp| binary_opcodes().contains(op),
{
}

/// The unary candidates are the unary instructions on an existing slot.
proof fn lemma_unary_part_contains(ops: Seq<UnOp>, slots: nat, inst: Instruction)
    requires
        slots <= i32::MAX,
    ensures
        unary_part(ops, slots).contains(inst) <==> (inst matches Instruction::Unary { op, op1 }
            && ops.contains(op) && reads_slot_below(op1, slots)),
{
    let rows = ops.map_values(|op: UnOp| unary_candidates(op, slots));
    if unary_part(ops, slots).contains(inst) {
        let k = choose|k: int| 0 <= k < rows.flatten().len() && rows.flatten()[k] == inst;
        lemma_flatten_entry(rows, k);
    }
    if let Instruction::Unary { op, op1 } = inst {
        if ops.contains(op) && reads_slot_below(op1, slots) {
            let r = choose|r: int| 0 <= r < ops.len() && ops[r] == op;
            lemma_flatten_contains(rows, r, op1.value as int);
        }
    }
}

/// The operand pairs are the pairs of an existing slot with an existing
/// slot or with a literal of the pool.
proof fn lemma_operand_pairs_contains(slots: nat, pool: Seq<i32>, pair: (Operand, Operand))
    requires
        slots <= i32::MAX,
    ensures
        operand_pairs(slots, pool).contains(pair) <==> {
            &&& reads_slot_below(pair.0, slots)
            &&& if pair.1.is_constant {
                pool.contains(pair.1.value)
            } else {
                reads_slot_below(pair.1, slots)
            }
        },
{
    let slot_part = Seq::new(slots, |i: int| slot_row(i, slots));
    let literal_part = Seq::new(slots, |i: int| literal_row(i, pool));
    let all = operand_pairs(slots, pool);
    if all.contains(pair) {
        let k = choose|k: int| 0 <= k < all.len() && all[k] == pair;
        if k < slot_part.flatten().len() {
            lemma_flatten_entry(slot_part, k);
        } else {
            lemma_flatten_entry(literal_part, k - slot_part.flatten().len());
        }
    }
    if reads_slot_below(pair.0, slots) {
        let i = pair.0.value as int;
        if pair.1.is_constant {
            if pool.contains(pair.1.value) {
                let c = choose|c: int| 0 <= c < pool.len() && pool[c] == pair.1.value;
                lemma_flatten_contains(literal_part, i, c);
                let k = choose|k: int|
                    0 <= k < literal_part.flatten().len() && literal_part.flatten()[k] == pair;
                assert(all[slot_part.flatten().len() + k] == pair);
            }
        } else if reads_slot_below(pair.1, slots) {
            let j = pair.1.value as int;
            lemma_flatten_contains(slot_part, i, j);
            let k = choose|k: int|
                0 <= k < slot_part.flatten().len() && slot_part.flatten()[k] == pair;
            assert(all[k] == pair);
        }
    }
}

/// The candidates of one binary opcode are that opcode on the pairs that
/// the pruning rule admits.
proof fn lemma_binary_over_contains(op: BinOp, pairs: Seq<(Operand, Operand)>, inst: Instruction)
    ensures
        binary_over(op, pairs).contains(inst) <==> (inst matches Instruction::Binary {
            op: o,
            op1,
            op2,
        } && o == op && pairs.contains((op1, op2)) && admits(op, (op1, op2))),
{
    let kept = pairs.filter(admitted_by(op));
    if binary_over(op, pairs).contains(inst) {
        let k = choose|k: int|
            0 <= k < binary_over(op, pairs).len() && binary_over(op, pairs)[k] == inst;
        assert(inst == applied_to(op)(kept[k]));
        pairs.lemma_filter_contains_rev(admitted_by(op), kept[k]);
    }
    if let Instruction::Binary { op: o, op1, op2 } = inst {
        if o == op && pairs.contains((op1, op2)) && admits(op, (op1, op2)) {
            let i = choose|i: int| 0 <= i < pairs.len() && pairs[i] == (op1, op2);
            pairs.lemma_filter_contains(admitted_by(op), i);
            let k = choose|k: int| 0 <= k < kept.len() && kept[k] == (op1, op2);
            assert(binary_over(op, pairs)[k] == inst);
        }
    }
}

/// The binary candidates are the listed opcodes on the pairs that the
/// pruning rule admits for them.
proof fn lemma_binary_part_contains(
    ops: Seq<BinOp>,
    pairs: Seq<(Operand, Operand)>,
    inst: Instruction,
)
    ensures
        binary_part(ops, pairs).contains(inst) <==> (inst matches Instruction::Binary {
            op,
            op1,
            op2,
        } && ops.contains(op) && pairs.contains((op1, op2)) && admits(op, (op1, op2))),
{
    let rows = ops.map_values(|op: BinOp| binary_over(op, pairs));
    if binary_part(ops, pairs).contains(inst) {
        let k = choose|k: int| 0 <= k < rows.flatten().len() && rows.flatten()[k] == inst;
        let (r, j) = lemma_flatten_entry(rows, k);
        lemma_binary_over_contains(ops[r], pairs, inst);
    }
    if let Instruction::Binary { op, op1, op2 } = inst {
        if ops.contains(op) && pairs.contains((op1, op2)) && admits(op, (op1, op2)) {
            let r = choose|r: int| 0 <= r < ops.len() && ops[r] == op;
            lemma_binary_over_contains(op, pairs, inst);
            let j = choose|j: int|
                0 <= j < binary_over(op, pairs).len() && binary_over(op, pairs)[j] == inst;
            lemma_flatten_contains(rows, r, j);
        }
    }
}

/// The generator offers exactly the instructions of the search space: an
/// instruction occurs among the candidates at `depth` if and only if it has
/// the shape that `in_search_space` describes.
pub proof fn lemma_candidates_are_search_space(pool: Seq<i32>, depth: nat, inst: Instruction)
    requires
        depth + 2 <= i32::MAX,
    ensures
        candidates_with(pool, depth).contains(inst) <==> in_search_space(inst, pool, depth),
{
    let slots = depth + 2;
    let unary = unary_part(unary_opcodes(), slots);
    let binary = binary_part(binary_opcodes(), operand_pairs(slots, pool));
    let all = candidates_with(pool, depth);
    lemma_unary_part_contains(unary_opcodes(), slots, inst);
    lemma_binary_part_contains(binary_opcodes(), operand_pairs(slots, pool), inst);
    if let Instruction::Binary { op, op1, op2 } = inst {
        lemma_operand_pairs_contains(slots, pool, (op1, op2));
    }
    if unary.contains(inst) {
        let k = choose|k: int| 0 <= k < unary.len() && unary[k] == inst;
        assert(all[k] == inst);
    }
    if binary.contains(inst) {
        let k = choose|k: int| 0 <= k < binary.len() && binary[k] == inst;
        assert(all[unary.len() + k] == inst);
    }
}

/// Every candidate obeys the pruning rules, whatever the depth and the pool.
pub proof fn lemma_candidates_are_pruned(pool: Seq<i32>, depth: nat, k: int)
    requires
        depth + 2 <= i32::MAX,
        0 <= k < candidates_with(pool, depth).len(),
    ensures
        obeys_pruning(candidates_with(pool, depth)[k]),
{
    let inst = candidates_with(pool, depth)[k];
    lemma_candidates_are_search_space(pool, depth, inst);
}

/// The candidates depend on the pool and the depth alone: equal pools and
/// equal depths give the same instructions in the same order.
pub proof fn lemma_generation_is_deterministic(
    first_pool: Seq<i32>,
    second_pool: Seq<i32>,
    first_depth: nat,
    second_depth: nat,
)
    requires
        first_pool =~= second_pool,
        first_depth == second_depth,
    ensures
        candidates_with(first_pool, first_depth) == candidates_with(second_pool, second_depth),
        candidates(first_depth) == candidates(second_depth),
{
}

/// Every candidate at `depth` only reads slots of the tape that `depth`
/// instructions leave behind.
pub proof fn lemma_candidates_resolve(pool: Seq<i32>, depth: nat, k: int)
    requires
        depth + 2 <= i32::MAX,
        0 <= k < candidates_with(pool, depth).len(),
    ensures
        candidates_with(pool, depth)[k].resolves(depth as int + 2),
{
    let inst = candidates_with(pool, depth)[k];
    lemma_candidates_are_search_space(pool, depth, inst);
}

/// Each unary opcode contributes one candidate for each slot.
proof fn lemma_unary_part_len(ops: Seq<UnOp>, slots: nat)
    ensures
        unary_part(ops, slots).len() == ops.len() * slots,
{
    lemma_flatten_uniform_len(ops.map_values(|op: UnOp| unary_candidates(op, slots)), slots);
}

/// Opcodes that contribute equally many candidates contribute that number
/// times the number of opcodes.
proof fn lemma_binary_part_uniform_len(
    ops: Seq<BinOp>,
    pairs: Seq<(Operand, Operand)>,
    width: nat,
)
    requires
        forall|r: int| 0 <= r < ops.len() ==> binary_over(#[trigger] ops[r], pairs).len() == width,
    ensures
        binary_part(ops, pairs).len() == ops.len() * width,
{
    lemma_flatten_uniform_len(ops.map_values(|op: BinOp| binary_over(op, pairs)), width);
}

/// The candidates of two opcode lists, one after the other, are the
/// candidates of the joined list.
proof fn lemma_binary_part_concat(
    front: Seq<BinOp>,
    back: Seq<BinOp>,
    pairs: Seq<(Operand, Operand)>,
)
    ensures
        binary_part(front + back, pairs) == binary_part(front, pairs) + binary_part(back, pairs),
{
    let f = |op: BinOp| binary_over(op, pairs);
    assert((front + back).map_values(f) =~= front.map_values(f) + back.map_values(f));
    vstd::seq_lib::lemma_flatten_concat(front.map_values(f), back.map_values(f));
}

/// The number of instructions that `op` contributes over the operand pairs
/// of `slots` slots and a pool without a zero: a shift is tried on the
/// slot-literal pairs only, every other opcode on all pairs.
proof fn lemma_binary_over_len(op: BinOp, slots: nat, pool: Seq<i32>)
    requires
        slots <= i32::MAX,
        forall|c: int| 0 <= c < pool.len() ==> pool[c] != 0,
    ensures
        binary_over(op, operand_pairs(slots, pool)).len() == if op == BinOp::Shr {
            slots * pool.len()
        } else {
            slots * slots + slots * pool.len()
        },
{
    let slot_part = Seq::new(slots, |i: int| slot_row(i, slots));
    let literal_part = Seq::new(slots, |i: int| literal_row(i, pool));
    let with_slots = slot_rows(slots, slots);
    let with_literals = literal_rows(slots, pool);
    let keep = admitted_by(op);
    lemma_flatten_uniform_len(slot_part, slots);
    lemma_flatten_uniform_len(literal_part, pool.len());
    assert forall|k: int| 0 <= k < with_literals.len() implies keep(
        #[trigger] with_literals[k],
    ) by {
        lemma_flatten_entry(literal_part, k);
    }
    lemma_filter_keeps_all(with_literals, keep);
    assert forall|k: int| 0 <= k < with_slots.len() implies keep(#[trigger] with_slots[k]) == (op
        != BinOp::Shr) by {
        lemma_flatten_entry(slot_part, k);
    }
    if op == BinOp::Shr {
        lemma_filter_drops_all(with_slots, keep);
    } else {
        lemma_filter_keeps_all(with_slots, keep);
    }
}

/// The number of candidates at `depth` with the standard constant pool.
///
/// With `n = depth + 2` slots there are `2n` unary candidates, `n * n + 3n`
/// binary candidates for each of the nine opcodes other than the shift, and
/// `3n` shifts: `9 * n * n + 32 * n` in all.
pub proof fn lemma_candidates_count(depth: nat)
    requires
        depth + 2 <= i32::MAX,
    ensures
        candidates(depth).len() == 9 * ((depth + 2) * (depth + 2)) + 32 * (depth + 2),
{
    let slots = depth + 2;
    let pool = constant_pool();
    let pairs = operand_pairs(slots, pool);
    let ops = binary_opcodes();
    let width = slots * slots + slots * 3;
    lemma_unary_part_len(unary_opcodes(), slots);
    assert forall|op: BinOp|
        (#[trigger] binary_over(op, pairs)).len() == if op == BinOp::Shr {
            slots * 3
        } else {
            width
        } by {
        lemma_binary_over_len(op, slots, pool);
    }
    assert(ops =~= ops.take(6) + seq![BinOp::Shr] + ops.skip(7));
    lemma_binary_part_concat(ops.take(6) + seq![BinOp::Shr], ops.skip(7), pairs);
    lemma_binary_part_concat(ops.take(6), seq![BinOp::Shr], pairs);
    lemma_binary_part_uniform_len(ops.take(6), pairs, width);
    lemma_binary_part_uniform_len(seq![BinOp::Shr], pairs, slots * 3);
    lemma_binary_part_uniform_len(ops.skip(7), pairs, width);
    assert(2 * slots + 6 * width + 1 * (slots * 3) + 3 * width == 9 * (slots * slots) + 32
        * slots) by (nonlinear_arith)
        requires
            width == slots * slots + slots * 3,
    ;
}

} // verus!
