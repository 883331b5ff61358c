//! Facts about flattened sequences that the generator and the search rely
//! on.

use vstd::prelude::*;

verus! {

/// Every entry of a flattened sequence is an entry of one of its rows.
pub proof fn lemma_flatten_entry<A>(rows: Seq<Seq<A>>, k: int) -> (place: (int, int))
    requires
        0 <= k < rows.flatten().len(),
    ensures
        0 <= place.0 < rows.len(),
        0 <= place.1 < rows[place.0].len(),
        rows.flatten()[k] == rows[place.0][place.1],
    decreases rows.len(),
{
    if k < rows.first().len() {
        (0, k)
    } else {
        let rest = rows.drop_first();
        let (r, j) = lemma_flatten_entry(rest, k - rows.first().len());
        (r + 1, j)
    }
}

/// Every entry of every row occurs in the flattened sequence.
pub proof fn lemma_flatten_contains<A>(rows: Seq<Seq<A>>, r: int, j: int)
    requires
        0 <= r < rows.len(),
        0 <= j < rows[r].len(),
    ensures
        rows.flatten().contains(rows[r][j]),
    decreases rows.len(),
{
    let flat = rows.flatten();
    let rest = rows.drop_first();
    if r == 0 {
        assert(flat[j] == rows[r][j]);
    } else {
        lemma_flatten_contains(rest, r - 1, j);
        let k = choose|k: int| 0 <= k < rest.flatten().len() && rest.flatten()[k] == rows[r][j];
        assert(flat[rows.first().len() + k] == rows[r][j]);
    }
}

/// Flattening rows of one common length gives that length times the number
/// of rows.
pub proof fn lemma_flatten_uniform_len<A>(rows: Seq<Seq<A>>, width: nat)
    requires
        forall|r: int| 0 <= r < rows.len() ==> (#[trigger] rows[r]).len() == width,
    ensures
        rows.flatten().len() == rows.len() * width,
    decreases rows.len(),
{
    if rows.len() > 0 {
        let rest = rows.drop_first();
        lemma_flatten_uniform_len(rest, width);
        assert(rows.len() * width == rest.len() * width + width) by (nonlinear_arith)
            requires
                rows.len() == rest.len() + 1,
        ;
    } else {
        assert(rows.len() * width == 0) by (nonlinear_arith)
            requires
                rows.len() == 0,
        ;
    }
}

/// A filter keeps a sequence whole when every entry passes it.
pub proof fn lemma_filter_keeps_all<A>(s: Seq<A>, pred: spec_fn(A) -> bool)
    requires
        forall|i: int| 0 <= i < s.len() ==> pred(#[trigger] s[i]),
    ensures
        s.filter(pred) == s,
    decreases s.len(),
{
    reveal(Seq::filter);
    if s.len() > 0 {
        lemma_filter_keeps_all(s.drop_last(), pred);
    }
}

/// A filter leaves nothing of a sequence when no entry passes it.
pub proof fn lemma_filter_drops_all<A>(s: Seq<A>, pred: spec_fn(A) -> bool)
    requires
        forall|i: int| 0 <= i < s.len() ==> !pred(#[trigger] s[i]),
    ensures
        s.filter(pred) == Seq::<A>::empty(),
    decreases s.len(),
{
    reveal(Seq::filter);
    if s.len() > 0 {
        lemma_filter_drops_all(s.drop_last(), pred);
    }
}

} // verus!
