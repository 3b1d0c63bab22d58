//! Counting the assets that an account owns, in an owner sequence indexed
//! by asset.
use vstd::prelude::*;

verus! {

/// How many entries of `owners` are `a`.
pub open spec fn owned_count(owners: Seq<u64>, a: u64) -> nat
    decreases owners.len(),
{
    if owners.len() == 0 {
        0
    } else {
        owned_count(owners.drop_last(), a) + if owners.last() == a {
            1nat
        } else {
            0nat
        }
    }
}

/// Appending an owner adds one to that owner's count and nothing to others.
pub proof fn lemma_owned_count_push(owners: Seq<u64>, x: u64, a: u64)
    ensures
        owned_count(owners.push(x), a) == owned_count(owners, a) + if x == a {
            1nat
        } else {
            0nat
        },
{
    assert(owners.push(x).drop_last() =~= owners);
}

/// Replacing one owner moves one unit of count from the old owner to the
/// new one.
pub proof fn lemma_owned_count_update(owners: Seq<u64>, i: int, x: u64, a: u64)
    requires
        0 <= i < owners.len(),
    ensures
        owned_count(owners.update(i, x), a) + (if owners[i] == a {
            1int
        } else {
            0int
        }) == owned_count(owners, a) + (if x == a {
            1int
        } else {
            0int
        }),
    decreases owners.len(),
{
    let n = owners.update(i, x);
    if i == owners.len() - 1 {
        assert(n.drop_last() =~= owners.drop_last());
    } else {
        assert(n.drop_last() =~= owners.drop_last().update(i, x));
        lemma_owned_count_update(owners.drop_last(), i, x, a);
    }
}

/// The owner recorded at an index owns at least one asset.
pub proof fn lemma_owned_count_positive(owners: Seq<u64>, i: int)
    requires
        0 <= i < owners.len(),
    ensures
        owned_count(owners, owners[i]) >= 1,
    decreases owners.len(),
{
    if i < owners.len() - 1 {
        lemma_owned_count_positive(owners.drop_last(), i);
    }
}

} // verus!
