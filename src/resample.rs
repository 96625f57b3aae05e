use vstd::prelude::*;
use rand::rngs::StdRng;
use rand::Rng;
use crate::estimate::sorted;

verus! {

broadcast use vstd::seq_lib::group_to_multiset_ensures;

#[verifier::external_type_specification]
#[verifier::external_body]
pub struct ExStdRng(StdRng);

/// Relies on rand's `Rng::gen_range` on the range `0..n`: the index drawn lies
/// in that range. It panics only on an empty range, which `requires` excludes.
#[verifier::external_body]
fn draw_index(rng: &mut StdRng, n: usize) -> (r: usize)
    requires
        n > 0,
    ensures
        r < n,
{
    rng.gen_range(0..n)
}

/// Relies on std's `slice::sort`: afterwards the values stand in ascending
/// order, and they are the values that were there before.
#[verifier::external_body]
fn sort_values(v: &mut Vec<i64>)
    ensures
        sorted(final(v)@),
        final(v)@.to_multiset() == old(v)@.to_multiset(),
{
    v.sort();
}

/// Puts a raw sample in ascending order, keeping every value.
pub fn sort_sample(xs: &mut Vec<i64>)
    ensures
        sorted(final(xs)@),
        final(xs)@.to_multiset() == old(xs)@.to_multiset(),
{
    sort_values(xs);
}

/// One bootstrap replicate: `size` values drawn uniformly, with replacement,
/// from `baseline`, returned sorted ascending.
pub fn resample(baseline: &Vec<i64>, size: usize, rng: &mut StdRng) -> (r: Vec<i64>)
    requires
        baseline@.len() > 0,
    ensures
        r@.len() == size,
        sorted(r@),
        forall|k: int| 0 <= k < r@.len() ==> baseline@.contains(#[trigger] r@[k]),
{
    let mut out: Vec<i64> = Vec::with_capacity(size);
    let mut k: usize = 0;
    while k < size
        invariant
            k <= size,
            out@.len() == k,
            baseline@.len() > 0,
            forall|j: int| 0 <= j < out@.len() ==> baseline@.contains(#[trigger] out@[j]),
        decreases size - k,
    {
        let i = draw_index(rng, baseline.len());
        out.push(baseline[i]);
        k = k + 1;
    }
    let ghost drawn = out@;
    sort_values(&mut out);
    assert(out@.len() == out@.to_multiset().len());
    assert(drawn.len() == drawn.to_multiset().len());
    assert forall|k: int| 0 <= k < out@.len() implies baseline@.contains(#[trigger] out@[k]) by {
        assert(out@.contains(out@[k]));
        assert(out@.to_multiset().count(out@[k]) > 0);
        assert(drawn.contains(out@[k]));
        let j = choose|j: int| 0 <= j < drawn.len() && drawn[j] == out@[k];
        assert(baseline@.contains(drawn[j]));
    }
    out
}

} // verus!
