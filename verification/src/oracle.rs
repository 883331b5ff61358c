//! The oracle: a table of sampled inputs with the outputs that a reference
//! program gives for them.
//!
//! The inputs come from a seeded pseudo-random generator. Nothing is claimed
//! of the values it draws beyond their range; everything that depends on
//! them is stated for whatever inputs were drawn.

use crate::instruction::{well_formed, Instruction, Program};
use crate::interpreter::{program_output, simulate_program};
use crate::search::{
    leaves, lemma_search_is_complete, programs_of, satisfies, satisfying, search, within_reach,
    Sample,
};
use rand::rngs::StdRng;
use rand::{Rng, SeedableRng};
use vstd::prelude::*;

verus! {

/// `rand::rngs::StdRng`, the generator that the sampler draws from. Its
/// state is opaque here.
#[verifier::external_type_specification]
#[verifier::external_body]
pub struct ExStdRng(StdRng);

/// `SeedableRng::seed_from_u64` on `StdRng`: a generator seeded with `seed`.
/// Nothing is claimed of the generator it returns.
#[verifier::external_body]
fn seeded_generator(seed: u64) -> StdRng {
    StdRng::seed_from_u64(seed)
}

/// `Rng::gen_range` on the half-open range `0..bound`: the value drawn is
/// at least 0 and less than `bound`, and nothing more is claimed of it. The
/// call panics on an empty range, so `bound` must be positive.
#[verifier::external_body]
fn draw_below(rng: &mut StdRng, bound: i32) -> (value: i32)
    requires
        0 < bound,
    ensures
        0 <= value < bound,
{
    rng.gen_range(0..bound)
}

/// Both components of the pair lie in `0..max_val`.
pub open spec fn within_bound(input: (i32, i32), max_val: i32) -> bool {
    0 <= input.0 < max_val && 0 <= input.1 < max_val
}

/// The oracle that `reference` defines on `inputs`: each input pair with the
/// output of the reference program on it.
pub open spec fn oracle_for(reference: Seq<Instruction>, inputs: Seq<(i32, i32)>) -> Seq<Sample> {
    inputs.map_values(|input: (i32, i32)| (input, program_output(reference, input)))
}

/// Draws `count` input pairs from a generator seeded with `seed`, each
/// component in `0..max_val`.
pub fn sample_inputs(seed: u64, count: usize, max_val: i32) -> (inputs: Vec<(i32, i32)>)
    requires
        0 < max_val,
    ensures
        inputs.len() == count,
        forall|i: int| 0 <= i < inputs.len() ==> within_bound(#[trigger] inputs[i], max_val),
{
    let mut rng = seeded_generator(seed);
    let mut inputs: Vec<(i32, i32)> = Vec::new();
    for n in 0..count
        invariant
            0 < max_val,
            inputs.len() == n,
            forall|i: int| 0 <= i < inputs.len() ==> within_bound(#[trigger] inputs[i], max_val),
    {
        let x: i32 = draw_below(&mut rng, max_val);
        let y: i32 = draw_below(&mut rng, max_val);
        inputs.push((x, y));
    }
    inputs
}

/// Runs the reference program on each input pair and records the outputs.
pub fn build_oracle(reference: &Program, inputs: &Vec<(i32, i32)>) -> (oracle: Vec<Sample>)
    requires
        well_formed(reference@),
    ensures
        oracle@ == oracle_for(reference@, inputs@),
{
    let mut oracle: Vec<Sample> = Vec::new();
    for i in 0..inputs.len()
        invariant
            well_formed(reference@),
            oracle@ == oracle_for(reference@, inputs@.take(i as int)),
    {
        let input = inputs[i];
        let output: i32 = simulate_program(reference, input);
        oracle.push((input, output));
    }
    oracle
}

/// Searches for the programs that behave as `reference` does on `inputs`:
/// the programs of the reference's length that reproduce its output on
/// every input pair.
pub fn synthesize(reference: &Program, inputs: &Vec<(i32, i32)>) -> (found: Vec<Program>)
    requires
        well_formed(reference@),
        reference.len() + 1 <= i32::MAX,
    ensures
        programs_of(found@) == leaves(Seq::empty(), reference.len() as nat).filter(
            satisfying(oracle_for(reference@, inputs@)),
        ),
        forall|k: int|
            0 <= k < found.len() ==> {
                &&& (#[trigger] found[k]).len() == reference.len()
                &&& well_formed(found[k]@)
                &&& satisfies(found[k]@, oracle_for(reference@, inputs@))
            },
        within_reach(reference@) ==> programs_of(found@).contains(reference@),
{
    let oracle = build_oracle(reference, inputs);
    proof {
        if within_reach(reference@) {
            lemma_search_recovers_reference(reference@, inputs@);
        }
    }
    search(&oracle, reference.len())
}

/// A reference program satisfies the oracle that it defines.
pub proof fn lemma_reference_satisfies_oracle(
    reference: Seq<Instruction>,
    inputs: Seq<(i32, i32)>,
)
    ensures
        satisfies(reference, oracle_for(reference, inputs)),
{
}

/// The search recovers the reference program: when the reference is built
/// from candidates only, the programs found for its oracle include the
/// reference itself, so there is at least one, and each of them satisfies
/// the oracle.
pub proof fn lemma_search_recovers_reference(
    reference: Seq<Instruction>,
    inputs: Seq<(i32, i32)>,
)
    requires
        within_reach(reference),
        reference.len() + 1 <= i32::MAX,
    ensures
        ({
            let oracle = oracle_for(reference, inputs);
            let found = leaves(Seq::empty(), reference.len()).filter(satisfying(oracle));
            &&& found.contains(reference)
            &&& found.len() > 0
            &&& forall|k: int| 0 <= k < found.len() ==> satisfies(#[trigger] found[k], oracle)
        }),
{
    lemma_search_is_complete(oracle_for(reference, inputs), reference.len(), reference);
}

} // verus!
