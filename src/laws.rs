//! Properties of the registry that relate several operations or hold of
//! every state, stated over the abstract state and proved.
use vstd::prelude::*;

use crate::dna::mixed_dna;
use crate::ownership::{lemma_owned_count_positive, owned_count};
use crate::pallet::{Error, PalletView};

verus! {

/// A successful admission adds exactly one kitty, under an index that had
/// no owner before and is owned by the creator after.
pub proof fn lemma_creation_takes_fresh_index(pre: PalletView, post: PalletView, owner: u64, dna: Seq<u8>, r: Result<u32, Error>)
    requires
        pre.wf(),
        pre.creation_outcome(post, owner, dna, r),
        r is Ok,
    ensures
        post.kitties.len() == pre.kitties.len() + 1,
        pre.owner(r->Ok_0) is None,
        post.owner(r->Ok_0) == Some(owner),
        post.kitties[r->Ok_0 as int] == dna,
        forall|i: int| 0 <= i < pre.kitties.len() ==> post.kitties[i] == pre.kitties[i] && post.owners[i] == pre.owners[i],
{
}

/// Breeding twice from the same two parents admits two kitties under two
/// distinct indices, each with the code its own selector gives.
pub proof fn lemma_breed_twice_distinct(
    first: PalletView,
    middle: PalletView,
    last: PalletView,
    who: u64,
    kitty_id_1: u32,
    kitty_id_2: u32,
    selector_1: Seq<u8>,
    selector_2: Seq<u8>,
    r1: Result<u32, Error>,
    r2: Result<u32, Error>,
)
    requires
        first.wf(),
        first.breed_error(kitty_id_1, kitty_id_2) is None,
        first.creation_outcome(
            middle,
            who,
            mixed_dna(selector_1, first.kitties[kitty_id_1 as int], first.kitties[kitty_id_2 as int]),
            r1,
        ),
        r1 is Ok,
        middle.creation_outcome(
            last,
            who,
            mixed_dna(selector_2, middle.kitties[kitty_id_1 as int], middle.kitties[kitty_id_2 as int]),
            r2,
        ),
        r2 is Ok,
    ensures
        middle.breed_error(kitty_id_1, kitty_id_2) is None,
        r1->Ok_0 != r2->Ok_0,
        last.kitties[r1->Ok_0 as int] == mixed_dna(selector_1, first.kitties[kitty_id_1 as int], first.kitties[kitty_id_2 as int]),
        last.kitties[r2->Ok_0 as int] == mixed_dna(selector_2, first.kitties[kitty_id_1 as int], first.kitties[kitty_id_2 as int]),
        last.owner(r1->Ok_0) == Some(who),
        last.owner(r2->Ok_0) == Some(who),
{
}

/// In every well-formed state each existing kitty has exactly one recorded
/// owner, and that owner has at least one stake reserved for each kitty it
/// owns.
pub proof fn lemma_every_kitty_owned_and_staked(p: PalletView, id: u32)
    requires
        p.wf(),
        id < p.kitties.len(),
    ensures
        p.owner(id) == Some(p.owners[id as int]),
        p.ledger.reserved(p.owners[id as int]) >= p.stake * owned_count(p.owners, p.owners[id as int]),
{
    assert(p.ledger.reserved(p.owners[id as int]) >= p.stake * owned_count(p.owners, p.owners[id as int]));
}

/// Buying an existing kitty that someone else owns and that has no asking
/// price is refused with `KittyNotForSell` (and a refused purchase changes
/// nothing).
pub proof fn lemma_buy_unlisted_refused(p: PalletView, buyer: u64, id: u32)
    requires
        id < p.owners.len(),
        p.owners[id as int] != buyer,
        p.price(id) is None,
    ensures
        p.sale_error(buyer, id) == Some(Error::KittyNotForSell),
{
}

/// Buying a kitty one already owns is refused with `BuyerIsOwner`.
pub proof fn lemma_buy_own_refused(p: PalletView, buyer: u64, id: u32)
    requires
        p.owner(id) == Some(buyer),
    ensures
        p.sale_error(buyer, id) == Some(Error::BuyerIsOwner),
{
}

/// A buyer whose free balance is exactly the price plus the stake is
/// refused; one unit more suffices when the payment itself is admissible
/// (the buyer may be left with one unit, and the seller's total can take
/// the price).
pub proof fn lemma_buy_balance_threshold(p: PalletView, buyer: u64, id: u32, price: u128)
    requires
        p.wf(),
        id < p.owners.len(),
        p.owners[id as int] != buyer,
        p.price(id) == Some(price),
    ensures
        p.ledger.free(buyer) == price + p.stake ==> p.sale_error(buyer, id) == Some(Error::NotEnoughBalanceForBuying),
        p.ledger.free(buyer) == price + p.stake + 1 && p.ledger.existential_deposit <= 1 && p.ledger.free(p.owners[id as int])
            + p.ledger.reserved(p.owners[id as int]) + price <= u128::MAX ==> p.sale_error(buyer, id) is None,
{
    let seller = p.owners[id as int];
    if p.ledger.free(buyer) == price + p.stake + 1 {
        lemma_owned_count_positive(p.owners, id as int);
        lemma_every_kitty_owned_and_staked(p, id);
        let c = owned_count(p.owners, seller) as int;
        let s = p.stake as int;
        assert(s * c >= s) by (nonlinear_arith)
            requires c >= 1, s >= 0;
        let l2 = p.after_swap(id, buyer);
        assert(l2.free(buyer) == p.ledger.free(buyer) - p.stake);
        assert(l2.free(seller) + l2.reserved(seller) == p.ledger.free(seller) + p.ledger.reserved(seller));
    }
}

/// Breeding from the same index twice is always refused with
/// `SameParentIndex`, whether or not a kitty has that index.
pub proof fn lemma_same_parent_refused(p: PalletView, kitty_id: u32)
    ensures
        p.breed_error(kitty_id, kitty_id) == Some(Error::SameParentIndex),
{
}

} // verus!
