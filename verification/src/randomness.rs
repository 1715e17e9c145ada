use vstd::prelude::*;

use crate::math::Vector2Fx;
use rand::seq::IndexedRandom;

verus! {

/// Relies on rand::random_range over `lo..hi`: a draw from the half-open
/// range, which panics only when the range is empty; the precondition rules
/// that out.
#[verifier::external_body]
pub(crate) fn random_u64_in(lo: u64, hi: u64) -> (r: u64)
    requires
        lo < hi,
    ensures
        lo <= r < hi,
{
    rand::random_range(lo..hi)
}

/// The sample `out` consists of entries of `src` picked at pairwise distinct
/// indices.
pub open spec fn picked_by_indices(src: Seq<Vector2Fx>, out: Seq<Vector2Fx>, idx: Seq<int>) -> bool {
    &&& idx.len() == out.len()
    &&& forall|k: int| 0 <= k < idx.len() ==> 0 <= #[trigger] idx[k] < src.len() && out[k] == src[idx[k]]
    &&& forall|k1: int, k2: int| 0 <= k1 < k2 < idx.len() ==> idx[k1] != idx[k2]
}

/// Relies on rand::seq::IndexedRandom::choose_multiple: it uniformly samples
/// `min(amount, len)` distinct slice indices and yields their elements.
#[verifier::external_body]
pub(crate) fn choose_multiple_positions(positions: &Vec<Vector2Fx>, amount: usize) -> (r: Vec<
    Vector2Fx,
>)
    ensures
        r@.len() == if amount <= positions@.len() {
            amount as int
        } else {
            positions@.len() as int
        },
        exists|idx: Seq<int>| picked_by_indices(positions@, r@, idx),
{
    positions.as_slice().choose_multiple(&mut rand::rng(), amount).cloned().collect()
}

/// Every sampled element occurs in the source, and sampling a
/// duplicate-free source yields a duplicate-free sample.
pub proof fn lemma_picked_sample_props(src: Seq<Vector2Fx>, out: Seq<Vector2Fx>)
    requires
        exists|idx: Seq<int>| picked_by_indices(src, out, idx),
    ensures
        forall|k: int| 0 <= k < out.len() ==> src.contains(#[trigger] out[k]),
        src.no_duplicates() ==> out.no_duplicates(),
{
    let idx = choose|idx: Seq<int>| picked_by_indices(src, out, idx);
    assert forall|k: int| 0 <= k < out.len() implies src.contains(#[trigger] out[k]) by {
        assert(out[k] == src[idx[k]]);
    }
    if src.no_duplicates() {
        assert forall|k1: int, k2: int|
            0 <= k1 < out.len() && 0 <= k2 < out.len() && k1 != k2 implies out[k1] != out[k2] by {
            assert(idx[k1] != idx[k2]);
        }
    }
}

} // verus!
