//! Row orders. Each send draws a fresh random order in which the rows of the
//! frame go out; whatever is drawn is a rearrangement of all row indices.

use rand::seq::SliceRandom;
use vstd::prelude::*;
use vstd::seq_lib::*;

verus! {

/// The row indices `0..n` in their natural order.
pub open spec fn identity_order(n: nat) -> Seq<usize> {
    Seq::new(n, |i: int| i as usize)
}

/// Whether `rows` is a row order of a frame with `n` rows: a rearrangement
/// of the indices `0..n`.
pub open spec fn is_row_order(rows: Seq<usize>, n: nat) -> bool {
    rows.to_multiset() == identity_order(n).to_multiset()
}

/// A row order of `n` rows names every row exactly once: it has `n`
/// entries, each below `n`, no entry twice, and every index below `n`
/// occurs in it exactly one time.
pub proof fn lemma_row_order_covers(rows: Seq<usize>, n: nat)
    requires
        is_row_order(rows, n),
        n <= usize::MAX,
    ensures
        rows.len() == n,
        rows.no_duplicates(),
        forall|k: int| 0 <= k < rows.len() ==> #[trigger] rows[k] < n,
        forall|r: usize| #[trigger] rows.to_multiset().count(r) == (if r < n { 1nat } else { 0nat }),
{
    broadcast use group_to_multiset_ensures;

    let id = identity_order(n);
    to_multiset_len(rows);
    to_multiset_len(id);
    id.lemma_multiset_has_no_duplicates();
    assert forall|r: usize| #[trigger]
        rows.to_multiset().count(r) == (if r < n {
            1nat
        } else {
            0nat
        }) by {
        if r < n {
            assert(id[r as int] == r);
        }
    }
    rows.lemma_multiset_has_no_duplicates_conv();
    assert forall|k: int| 0 <= k < rows.len() implies #[trigger] rows[k] < n by {
        assert(rows.to_multiset().count(rows[k]) > 0);
    }
}

/// The row indices `0..n`, in their natural order.
pub fn identity_rows(n: usize) -> (rows: Vec<usize>)
    ensures
        rows@ == identity_order(n as nat),
{
    let mut rows: Vec<usize> = Vec::new();
    let mut i: usize = 0;
    while i < n
        invariant
            i <= n,
            rows@ == identity_order(i as nat),
        decreases n - i,
    {
        rows.push(i);
        i += 1;
    }
    rows
}

/// Rearranges `rows` at random.
///
/// Trusted: the body calls `rand::seq::SliceRandom::shuffle` on the slice,
/// with the thread-local generator that `rand::thread_rng` hands out. The
/// contract claims only what holds of every outcome: the shuffle swaps
/// entries in place, so the same entries are there afterwards, each as often
/// as before.
#[verifier::external_body]
fn shuffle(rows: &mut Vec<usize>)
    ensures
        final(rows)@.to_multiset() == old(rows)@.to_multiset(),
{
    rows.shuffle(&mut rand::thread_rng());
}

/// Draws a fresh random row order for a frame with `n` rows.
pub fn random_row_order(n: usize) -> (rows: Vec<usize>)
    ensures
        is_row_order(rows@, n as nat),
{
    let mut rows = identity_rows(n);
    shuffle(&mut rows);
    rows
}

} // verus!
