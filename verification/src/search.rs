//! The exhaustive depth-first search for programs that agree with an
//! oracle.
//!
//! The search walks every program of the target length that can be built
//! from the generator's candidates, depth by depth, in one shared buffer. A
//! complete program is run on every sample of the oracle and kept when it
//! reproduces every expected output.

use crate::generator::{candidates, constant_pool, possible_instructions};
use crate::instruction::{well_formed, Instruction, Program};
use crate::interpreter::{program_output, simulate_program};
use crate::search_space::lemma_candidates_resolve;
use crate::sequences::lemma_filter_keeps_all;
use vstd::prelude::*;

verus! {

/// One row of the oracle: an input pair and the output expected for it.
pub type Sample = ((i32, i32), i32);

/// The program reproduces the expected output of the sample.
pub open spec fn agrees_with(program: Seq<Instruction>, sample: Sample) -> bool {
    program_output(program, sample.0) == sample.1
}

/// The program reproduces the expected output of every sample of the oracle.
pub open spec fn satisfies(program: Seq<Instruction>, oracle: Seq<Sample>) -> bool {
    forall|i: int| 0 <= i < oracle.len() ==> agrees_with(program, #[trigger] oracle[i])
}

/// `satisfies` for a fixed oracle, as a predicate on programs.
pub open spec fn satisfying(oracle: Seq<Sample>) -> spec_fn(Seq<Instruction>) -> bool {
    |program: Seq<Instruction>| satisfies(program, oracle)
}

/// The instruction sequences that a collection of programs holds.
pub open spec fn programs_of(stored: Seq<Program>) -> Seq<Seq<Instruction>> {
    stored.map_values(|program: Program| program@)
}

/// The complete programs of `length` instructions that the search reaches
/// from `prefix`, in the order in which it reaches them.
pub open spec fn leaves(prefix: Seq<Instruction>, length: nat) -> Seq<Seq<Instruction>>
    decreases length - prefix.len(), candidates(prefix.len()).len() + 1,
{
    if prefix.len() >= length {
        seq![prefix]
    } else {
        branches(prefix, length, candidates(prefix.len()).len())
    }
}

/// The complete programs that the search reaches from `prefix` through the
/// first `tried` candidates at this depth.
pub open spec fn branches(prefix: Seq<Instruction>, length: nat, tried: nat) -> Seq<
    Seq<Instruction>,
>
    decreases length - prefix.len(), tried,
{
    if prefix.len() >= length || tried == 0 {
        Seq::empty()
    } else {
        branches(prefix, length, (tried - 1) as nat) + leaves(
            prefix.push(candidates(prefix.len())[tried - 1]),
            length,
        )
    }
}

/// The number of complete programs below a prefix of `from` instructions:
/// the product of the numbers of candidates at the depths `from..to`.
pub open spec fn search_space_size(from: nat, to: nat) -> nat
    decreases to - from,
{
    if from >= to {
        1
    } else {
        candidates(from).len() * search_space_size(from + 1, to)
    }
}

/// Every instruction of the program is one of the candidates at its depth.
pub open spec fn within_reach(program: Seq<Instruction>) -> bool {
    forall|d: int| 0 <= d < program.len() ==> candidates(d as nat).contains(#[trigger] program[d])
}

/// Tests a complete program against the oracle: it passes when it returns
/// the expected output on every sample.
pub fn satisfies_oracle(program: &Program, inputs: &Vec<Sample>) -> (correct: bool)
    requires
        well_formed(program@),
    ensures
        correct == satisfies(program@, inputs@),
{
    for i in 0..inputs.len()
        invariant
            well_formed(program@),
            forall|j: int| 0 <= j < i ==> agrees_with(program@, #[trigger] inputs@[j]),
    {
        let ((x, y), expected_output) = inputs[i];
        let output: i32 = simulate_program(program, (x, y));
        if output != expected_output {
            return false;
        }
    }
    true
}

/// Explores every completion of the program in the buffer and appends those
/// that satisfy the oracle to `correct_programs`.
///
/// `depth` is the number of instructions already in the buffer. On return
/// the buffer holds what it held on entry.
pub fn explore(
    depth: usize,
    program: &mut Program,
    correct_programs: &mut Vec<Program>,
    inputs: &Vec<Sample>,
    program_length: usize,
)
    requires
        depth == old(program).len(),
        depth <= program_length,
        program_length + 1 <= i32::MAX,
        well_formed(old(program)@),
    ensures
        final(program)@ == old(program)@,
        final(correct_programs)@.len() >= old(correct_programs)@.len(),
        final(correct_programs)@.take(old(correct_programs)@.len() as int) == old(
            correct_programs,
        )@,
        programs_of(final(correct_programs)@) == programs_of(old(correct_programs)@) + leaves(
            old(program)@,
            program_length as nat,
        ).filter(satisfying(inputs@)),
    decreases program_length - depth,
{
    let ghost prefix = program@;
    let ghost earlier = correct_programs@;
    let ghost length = program_length as nat;
    let ghost keep = satisfying(inputs@);
    if depth == program_length {
        if satisfies_oracle(program, inputs) {
            correct_programs.push(program.clone());
        }
        proof {
            Seq::<Seq<Instruction>>::empty().lemma_filter_push(prefix, keep);
            assert(Seq::<Seq<Instruction>>::empty().filter(keep) =~= Seq::empty());
        }
        return ;
    }
    let instructions = possible_instructions(depth);
    assert(branches(prefix, length, 0).filter(keep) =~= Seq::empty());
    for i in 0..instructions.len()
        invariant
            depth == prefix.len(),
            depth < program_length,
            program_length + 1 <= i32::MAX,
            length == program_length,
            keep == satisfying(inputs@),
            well_formed(prefix),
            instructions@ == candidates(depth as nat),
            program@ == prefix,
            correct_programs@.len() >= earlier.len(),
            correct_programs@.take(earlier.len() as int) == earlier,
            programs_of(correct_programs@) == programs_of(earlier) + branches(
                prefix,
                length,
                i as nat,
            ).filter(keep),
    {
        proof {
            lemma_candidates_resolve(constant_pool(), depth as nat, i as int);
        }
        program.push(instructions[i]);
        explore(depth + 1, program, correct_programs, inputs, program_length);
        program.pop();
    }
}

/// Finds every program of `program_length` instructions that satisfies the
/// oracle, in the order in which the search reaches them.
pub fn search(inputs: &Vec<Sample>, program_length: usize) -> (correct_programs: Vec<Program>)
    requires
        program_length + 1 <= i32::MAX,
    ensures
        programs_of(correct_programs@) == leaves(Seq::empty(), program_length as nat).filter(
            satisfying(inputs@),
        ),
        forall|k: int|
            0 <= k < correct_programs.len() ==> {
                &&& (#[trigger] correct_programs[k]).len() == program_length
                &&& well_formed(correct_programs[k]@)
                &&& satisfies(correct_programs[k]@, inputs@)
            },
{
    let mut correct_programs: Vec<Program> = Vec::new();
    let mut program: Program = Vec::new();
    explore(0, &mut program, &mut correct_programs, inputs, program_length);
    proof {
        assert forall|k: int| 0 <= k < correct_programs.len() implies {
            &&& (#[trigger] correct_programs[k]).len() == program_length
            &&& well_formed(correct_programs[k]@)
            &&& satisfies(correct_programs[k]@, inputs@)
        } by {
            lemma_search_is_sound(inputs@, program_length as nat, k);
        }
    }
    correct_programs
}

/// The search is exhaustive: below any prefix it reaches as many complete
/// programs as the product of the numbers of candidates at the remaining
/// depths.
pub proof fn lemma_leaves_count(prefix: Seq<Instruction>, length: nat)
    ensures
        leaves(prefix, length).len() == search_space_size(prefix.len(), length),
    decreases length - prefix.len(), candidates(prefix.len()).len() + 1,
{
    if prefix.len() < length {
        lemma_branches_count(prefix, length, candidates(prefix.len()).len());
    }
}

/// Each candidate tried adds the complete programs below it.
proof fn lemma_branches_count(prefix: Seq<Instruction>, length: nat, tried: nat)
    requires
        prefix.len() < length,
    ensures
        branches(prefix, length, tried).len() == tried * search_space_size(
            prefix.len() + 1,
            length,
        ),
    decreases length - prefix.len(), tried,
{
    let below = search_space_size(prefix.len() + 1, length);
    if tried == 0 {
        assert(0 * below == 0) by (nonlinear_arith);
    } else {
        lemma_branches_count(prefix, length, (tried - 1) as nat);
        lemma_leaves_count(prefix.push(candidates(prefix.len())[tried - 1]), length);
        assert(tried * below == (tried - 1) * below + below) by (nonlinear_arith);
    }
}

/// Every program that the search reaches from `prefix` has the target
/// length, starts with `prefix`, and continues with candidates only.
pub proof fn lemma_leaf_shape(prefix: Seq<Instruction>, length: nat, k: int)
    requires
        prefix.len() <= length,
        0 <= k < leaves(prefix, length).len(),
    ensures
        leaves(prefix, length)[k].len() == length,
        leaves(prefix, length)[k].take(prefix.len() as int) == prefix,
        forall|d: int|
            prefix.len() <= d < length ==> candidates(d as nat).contains(
                #[trigger] leaves(prefix, length)[k][d],
            ),
    decreases length - prefix.len(), candidates(prefix.len()).len() + 1,
{
    if prefix.len() < length {
        lemma_branch_shape(prefix, length, candidates(prefix.len()).len(), k);
    }
}

/// `lemma_leaf_shape` for the programs reached through the first `tried`
/// candidates.
proof fn lemma_branch_shape(prefix: Seq<Instruction>, length: nat, tried: nat, k: int)
    requires
        prefix.len() < length,
        tried <= candidates(prefix.len()).len(),
        0 <= k < branches(prefix, length, tried).len(),
    ensures
        branches(prefix, length, tried)[k].len() == length,
        branches(prefix, length, tried)[k].take(prefix.len() as int) == prefix,
        forall|d: int|
            prefix.len() <= d < length ==> candidates(d as nat).contains(
                #[trigger] branches(prefix, length, tried)[k][d],
            ),
    decreases length - prefix.len(), tried,
{
    let earlier = branches(prefix, length, (tried - 1) as nat);
    if k < earlier.len() {
        lemma_branch_shape(prefix, length, (tried - 1) as nat, k);
    } else {
        let inst = candidates(prefix.len())[tried - 1];
        let longer = prefix.push(inst);
        let leaf = leaves(longer, length)[k - earlier.len()];
        lemma_leaf_shape(longer, length, k - earlier.len());
        assert(leaf[prefix.len() as int] == leaf.take(longer.len() as int)[prefix.len() as int]);
    }
}

/// What the search reaches below the candidate at index `j` is among what
/// it reaches through any number of candidates greater than `j`.
proof fn lemma_branches_include(
    prefix: Seq<Instruction>,
    length: nat,
    tried: nat,
    j: int,
    program: Seq<Instruction>,
)
    requires
        prefix.len() < length,
        0 <= j < tried,
        leaves(prefix.push(candidates(prefix.len())[j]), length).contains(program),
    ensures
        branches(prefix, length, tried).contains(program),
    decreases tried,
{
    let earlier = branches(prefix, length, (tried - 1) as nat);
    let last = leaves(prefix.push(candidates(prefix.len())[tried - 1]), length);
    let all = branches(prefix, length, tried);
    if j == tried - 1 {
        let k = choose|k: int| 0 <= k < last.len() && last[k] == program;
        assert(all[earlier.len() + k] == program);
    } else {
        lemma_branches_include(prefix, length, (tried - 1) as nat, j, program);
        let k = choose|k: int| 0 <= k < earlier.len() && earlier[k] == program;
        assert(all[k] == program);
    }
}

/// The search reaches every program of the target length that starts with
/// `prefix` and continues with candidates only.
pub proof fn lemma_leaves_complete(prefix: Seq<Instruction>, length: nat, program: Seq<Instruction>)
    requires
        program.len() == length,
        prefix.len() <= length,
        program.take(prefix.len() as int) == prefix,
        forall|d: int|
            prefix.len() <= d < length ==> candidates(d as nat).contains(#[trigger] program[d]),
    ensures
        leaves(prefix, length).contains(program),
    decreases length - prefix.len(),
{
    if prefix.len() == length {
        assert(leaves(prefix, length)[0] == program);
    } else {
        let options = candidates(prefix.len());
        let inst = program[prefix.len() as int];
        let j = choose|j: int| 0 <= j < options.len() && options[j] == inst;
        assert(program.take(prefix.len() as int + 1) =~= prefix.push(inst));
        lemma_leaves_complete(prefix.push(inst), length, program);
        lemma_branches_include(prefix, length, options.len(), j, program);
    }
}

/// What the search returns is sound: each returned program has the target
/// length, is built from candidates only, is well formed, and satisfies the
/// oracle.
pub proof fn lemma_search_is_sound(oracle: Seq<Sample>, length: nat, k: int)
    requires
        length + 1 <= i32::MAX,
        0 <= k < leaves(Seq::empty(), length).filter(satisfying(oracle)).len(),
    ensures
        ({
            let found = leaves(Seq::empty(), length).filter(satisfying(oracle))[k];
            &&& found.len() == length
            &&& within_reach(found)
            &&& well_formed(found)
            &&& satisfies(found, oracle)
        }),
{
    let all = leaves(Seq::empty(), length);
    let found = all.filter(satisfying(oracle))[k];
    all.lemma_filter_contains_rev(satisfying(oracle), found);
    let at = choose|at: int| 0 <= at < all.len() && all[at] == found;
    lemma_leaf_shape(Seq::empty(), length, at);
    lemma_within_reach_is_well_formed(found);
}

/// The search is complete: it returns every program of the target length
/// that is built from candidates only and satisfies the oracle.
pub proof fn lemma_search_is_complete(
    oracle: Seq<Sample>,
    length: nat,
    program: Seq<Instruction>,
)
    requires
        program.len() == length,
        within_reach(program),
        satisfies(program, oracle),
    ensures
        leaves(Seq::empty(), length).filter(satisfying(oracle)).contains(program),
{
    assert(program.take(0) =~= Seq::empty());
    lemma_leaves_complete(Seq::empty(), length, program);
}

/// A program that is built from candidates only reads existing slots only.
pub proof fn lemma_within_reach_is_well_formed(program: Seq<Instruction>)
    requires
        program.len() + 1 <= i32::MAX,
        within_reach(program),
    ensures
        well_formed(program),
{
    assert forall|d: int| 0 <= d < program.len() implies (#[trigger] program[d]).resolves(
        d + 2,
    ) by {
        let options = candidates(d as nat);
        let at = choose|at: int| 0 <= at < options.len() && options[at] == program[d];
        lemma_candidates_resolve(constant_pool(), d as nat, at);
    }
}

/// With an oracle that holds no sample the search keeps every program it
/// reaches, so the number of programs it returns is the size of the search
/// space.
pub proof fn lemma_empty_oracle_keeps_all(length: nat)
    ensures
        leaves(Seq::empty(), length).filter(satisfying(Seq::empty())) == leaves(
            Seq::empty(),
            length,
        ),
        leaves(Seq::empty(), length).len() == search_space_size(0, length),
{
    let all = leaves(Seq::empty(), length);
    lemma_filter_keeps_all(all, satisfying(Seq::empty()));
    lemma_leaves_count(Seq::empty(), length);
}

} // verus!
