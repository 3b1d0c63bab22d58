//! The kitty registry: creation and breeding of kitties, each backed by a
//! stake reserved from its owner, and a marketplace to list, give away and
//! buy them.
use std::collections::HashMap;
use vstd::prelude::*;

use crate::dna::{identity_of, mix_dna, mixed_dna, random_value};
use crate::ledger::{BalanceError, Ledger, LedgerView};
use crate::ownership::{lemma_owned_count_positive, lemma_owned_count_push, lemma_owned_count_update, owned_count};

verus! {

broadcast use vstd::std_specs::hash::group_hash_axioms;

pub type AccountId = u64;

pub type KittyIndex = u32;

pub type Balance = u128;

/// A kitty: its genetic code, fixed when it is created.
#[derive(Clone, Copy, Debug, PartialEq, Eq)]
pub struct Kitty {
    pub dna: [u8; 16],
}

/// Why an operation of the registry was refused. A refused operation
/// leaves the registry as it was.
#[derive(Clone, Copy, Debug, PartialEq, Eq, Structural)]
pub enum Error {
    /// Every index up to the configured maximum is taken.
    KittiesCountOverflow,
    /// The caller does not own the kitty.
    NotOwner,
    /// Both parents are the same kitty.
    SameParentIndex,
    /// No kitty has that index.
    InvalidKittyIndex,
    /// The buyer already owns the kitty.
    BuyerIsOwner,
    /// The kitty is not listed with a price.
    KittyNotForSell,
    /// The buyer's free balance does not exceed the price plus the stake.
    NotEnoughBalanceForBuying,
    /// The stake could not be reserved.
    NotEnoughBalanceForStaking,
    /// The ledger refused the payment from buyer to seller.
    Payment(BalanceError),
}

/// What the registry reports of each completed operation.
#[derive(Clone, Copy, Debug, PartialEq, Eq, Structural)]
pub enum Event {
    /// Owner, new index.
    KittyCreate(AccountId, KittyIndex),
    /// Previous owner, new owner, index.
    KittyTransfer(AccountId, AccountId, KittyIndex),
    /// Owner, index, asking price.
    KittyListed(AccountId, KittyIndex, Option<Balance>),
    /// Buyer, seller, index.
    KittySold(AccountId, AccountId, KittyIndex),
}

/// The constants of a deployment.
#[derive(Clone, Copy, Debug, PartialEq, Eq, Structural)]
pub struct Config {
    /// Amount reserved from the owner for each kitty owned.
    pub stake_for_each_kitty: Balance,
    /// The count of kitties can never pass this value.
    pub max_kitty_index: KittyIndex,
    /// The least free balance that a payer must keep.
    pub existential_deposit: Balance,
}

/// The abstract state of the registry.
pub struct PalletView {
    pub stake: u128,
    pub max_index: u32,
    /// The genetic code of kitty `i` is `kitties[i]`; the registry only
    /// ever appends.
    pub kitties: Seq<Seq<u8>>,
    /// The owner of kitty `i` is `owners[i]`.
    pub owners: Seq<u64>,
    /// Listing entries: a price means for sale at that price; an entry
    /// without a price means withdrawn from sale.
    pub listings: Map<u32, Option<u128>>,
    pub ledger: LedgerView,
    pub events: Seq<Event>,
}

impl PalletView {
    /// The owner of a kitty; `None` exactly when it was never created.
    pub open spec fn owner(self, id: u32) -> Option<u64> {
        if id < self.owners.len() {
            Some(self.owners[id as int])
        } else {
            None
        }
    }

    /// The asking price of a kitty, if it is for sale.
    pub open spec fn price(self, id: u32) -> Option<u128> {
        if self.listings.contains_key(id) {
            self.listings[id]
        } else {
            None
        }
    }

    /// Each owner has at least one stake reserved for each kitty it owns.
    pub open spec fn stake_backed(self) -> bool {
        forall|a: u64| #[trigger] self.ledger.reserved(a) >= self.stake * owned_count(self.owners, a)
    }

    /// The registry's invariant: one owner per kitty, a count that stays
    /// within the configured maximum, a consistent ledger, and stakes that
    /// back every kitty.
    pub open spec fn wf(self) -> bool {
        &&& self.owners.len() == self.kitties.len()
        &&& self.kitties.len() <= self.max_index
        &&& self.ledger.wf()
        &&& self.stake_backed()
    }

    /// Why admitting a new kitty for `owner` is refused, if it is.
    pub open spec fn creation_error(self, owner: u64) -> Option<Error> {
        if self.kitties.len() == self.max_index {
            Some(Error::KittiesCountOverflow)
        } else if self.ledger.free(owner) < self.stake {
            Some(Error::NotEnoughBalanceForStaking)
        } else {
            None
        }
    }

    /// The state after a kitty with code `dna` is admitted for `owner`.
    pub open spec fn after_creation(self, owner: u64, dna: Seq<u8>) -> PalletView {
        PalletView {
            stake: self.stake,
            max_index: self.max_index,
            kitties: self.kitties.push(dna),
            owners: self.owners.push(owner),
            listings: self.listings,
            ledger: self.ledger.after_reserve(owner, self.stake),
            events: self.events.push(Event::KittyCreate(owner, self.kitties.len() as u32)),
        }
    }

    /// The outcome of admitting a kitty with code `dna` for `owner`: the
    /// new index is the previous count.
    pub open spec fn creation_outcome(self, post: PalletView, owner: u64, dna: Seq<u8>, r: Result<u32, Error>) -> bool {
        match self.creation_error(owner) {
            Some(e) => r == Err::<u32, Error>(e) && post == self,
            None => r == Ok::<u32, Error>(self.kitties.len() as u32) && post == self.after_creation(owner, dna),
        }
    }

    /// The ledger after one stake moves from the owner of `id` to
    /// `new_owner`: reserved for the new owner first, then released for the
    /// old one.
    pub open spec fn after_swap(self, id: u32, new_owner: u64) -> LedgerView {
        self.ledger.after_reserve(new_owner, self.stake).after_unreserve(self.owners[id as int], self.stake)
    }

    /// Why breeding from `kitty_id_1` and `kitty_id_2` is refused before a
    /// kitty is admitted, if it is.
    pub open spec fn breed_error(self, kitty_id_1: u32, kitty_id_2: u32) -> Option<Error> {
        if kitty_id_1 == kitty_id_2 {
            Some(Error::SameParentIndex)
        } else if kitty_id_1 >= self.kitties.len() || kitty_id_2 >= self.kitties.len() {
            Some(Error::InvalidKittyIndex)
        } else {
            None
        }
    }

    /// Why `who` may not list or give away kitty `id`, if it may not.
    pub open spec fn owner_error(self, who: u64, id: u32) -> Option<Error> {
        if self.owner(id) != Some(who) {
            Some(Error::NotOwner)
        } else {
            None
        }
    }

    /// The state after `who` lists kitty `id` with `price`.
    pub open spec fn after_listing(self, who: u64, id: u32, price: Option<u128>) -> PalletView {
        PalletView {
            stake: self.stake,
            max_index: self.max_index,
            kitties: self.kitties,
            owners: self.owners,
            listings: self.listings.insert(id, price),
            ledger: self.ledger,
            events: self.events.push(Event::KittyListed(who, id, price)),
        }
    }

    /// Why giving kitty `id` from `who` to `new_owner` is refused, if it is.
    pub open spec fn transfer_error(self, who: u64, new_owner: u64, id: u32) -> Option<Error> {
        if self.owner(id) != Some(who) {
            Some(Error::NotOwner)
        } else if self.ledger.free(new_owner) < self.stake {
            Some(Error::NotEnoughBalanceForStaking)
        } else {
            None
        }
    }

    /// The state after `who` gives kitty `id` to `new_owner`.
    pub open spec fn after_transfer(self, who: u64, new_owner: u64, id: u32) -> PalletView {
        PalletView {
            stake: self.stake,
            max_index: self.max_index,
            kitties: self.kitties,
            owners: self.owners.update(id as int, new_owner),
            listings: self.listings,
            ledger: self.after_swap(id, new_owner),
            events: self.events.push(Event::KittyTransfer(who, new_owner, id)),
        }
    }

    /// Why `buyer` may not buy kitty `id`, if it may not.
    pub open spec fn sale_error(self, buyer: u64, id: u32) -> Option<Error> {
        if id >= self.owners.len() {
            Some(Error::InvalidKittyIndex)
        } else if self.owners[id as int] == buyer {
            Some(Error::BuyerIsOwner)
        } else {
            match self.price(id) {
                None => Some(Error::KittyNotForSell),
                Some(p) => if self.ledger.free(buyer) <= p + self.stake {
                    Some(Error::NotEnoughBalanceForBuying)
                } else {
                    match self.after_swap(id, buyer).transfer_error(buyer, self.owners[id as int], p) {
                        Some(e) => Some(Error::Payment(e)),
                        None => None,
                    }
                },
            }
        }
    }

    /// The state after `buyer` buys kitty `id` at its asking price: the
    /// stake moves, the price is paid to the seller, ownership moves and the
    /// listing is cleared.
    pub open spec fn after_sale(self, buyer: u64, id: u32) -> PalletView {
        let seller = self.owners[id as int];
        PalletView {
            stake: self.stake,
            max_index: self.max_index,
            kitties: self.kitties,
            owners: self.owners.update(id as int, buyer),
            listings: self.listings.remove(id),
            ledger: self.after_swap(id, buyer).after_transfer(buyer, seller, self.price(id).unwrap()),
            events: self.events.push(Event::KittySold(buyer, seller, id)),
        }
    }
}

/// Moving one stake along with one kitty keeps every kitty backed by a
/// stake of its owner.
proof fn lemma_swap_keeps_backing(pre: PalletView, id: u32, new_owner: u64)
    requires
        pre.wf(),
        id < pre.owners.len(),
    ensures
        pre.ledger.reserved(pre.owners[id as int]) >= pre.stake,
        pre.ledger.free(new_owner) >= pre.stake ==> forall|a: u64| #[trigger]
            pre.after_swap(id, new_owner).reserved(a) >= pre.stake * owned_count(pre.owners.update(id as int, new_owner), a),
{
    let prev = pre.owners[id as int];
    let s = pre.stake as int;
    lemma_owned_count_positive(pre.owners, id as int);
    let cp = owned_count(pre.owners, prev) as int;
    assert(pre.ledger.reserved(prev) >= s * cp);
    assert(s * cp >= s) by (nonlinear_arith)
        requires cp >= 1, s >= 0;
    if pre.ledger.free(new_owner) >= pre.stake {
        let l2 = pre.after_swap(id, new_owner);
        let owners2 = pre.owners.update(id as int, new_owner);
        assert forall|a: u64| #[trigger] l2.reserved(a) >= pre.stake * owned_count(owners2, a) by {
            lemma_owned_count_update(pre.owners, id as int, new_owner, a);
            let c = owned_count(pre.owners, a) as int;
            let c2 = owned_count(owners2, a) as int;
            assert(pre.ledger.reserved(a) >= s * c);
            if new_owner == prev {
                assert(c2 == c);
            } else if a == new_owner {
                assert(c2 == c + 1);
                assert(s * (c + 1) == s * c + s) by (nonlinear_arith);
            } else if a == prev {
                assert(c2 == c - 1);
                assert(s * (c - 1) == s * c - s) by (nonlinear_arith);
            } else {
                assert(c2 == c);
            }
        }
    }
}

/// The registry of kitties, with the ledger that holds their stakes.
pub struct Pallet {
    stake_for_each_kitty: Balance,
    max_kitty_index: KittyIndex,
    kitties: Vec<Kitty>,
    owners: Vec<AccountId>,
    list_for_sale: HashMap<KittyIndex, Option<Balance>>,
    currency: Ledger,
    events: Vec<Event>,
}

impl View for Pallet {
    type V = PalletView;

    closed spec fn view(&self) -> PalletView {
        PalletView {
            stake: self.stake_for_each_kitty,
            max_index: self.max_kitty_index,
            kitties: self.kitties@.map_values(|k: Kitty| k.dna@),
            owners: self.owners@,
            listings: self.list_for_sale@,
            ledger: self.currency@,
            events: self.events@,
        }
    }
}

impl Pallet {
    /// An empty registry with an empty ledger.
    pub fn new(config: Config) -> (r: Pallet)
        ensures
            r@.wf(),
            r@.stake == config.stake_for_each_kitty,
            r@.max_index == config.max_kitty_index,
            r@.kitties.len() == 0,
            r@.listings == Map::<u32, Option<u128>>::empty(),
            r@.ledger.accounts == Map::<u64, crate::ledger::AccountData>::empty(),
            r@.ledger.existential_deposit == config.existential_deposit,
            r@.events.len() == 0,
    {
        let r = Pallet {
            stake_for_each_kitty: config.stake_for_each_kitty,
            max_kitty_index: config.max_kitty_index,
            kitties: Vec::new(),
            owners: Vec::new(),
            list_for_sale: HashMap::new(),
            currency: Ledger::new(config.existential_deposit),
            events: Vec::new(),
        };
        assert forall|a: u64| #[trigger] r@.ledger.reserved(a) >= r@.stake * owned_count(r@.owners, a) by {
            assert(owned_count(r@.owners, a) == 0);
            assert(r@.stake * 0 == 0);
        }
        r
    }

    /// The shared admission routine: reserves one stake from `owner`, then
    /// records a kitty with code `dna` under the next index.
    fn create_kitty_with_stake(&mut self, owner: AccountId, dna: [u8; 16]) -> (r: Result<KittyIndex, Error>)
        requires
            old(self)@.wf(),
        ensures
            final(self)@.wf(),
            old(self)@.creation_outcome(final(self)@, owner, dna@, r),
    {
        let kitty_id = self.kitties.len() as u32;
        if kitty_id == self.max_kitty_index {
            return Err(Error::KittiesCountOverflow);
        }
        let stake_amount = self.stake_for_each_kitty;
        match self.currency.reserve(owner, stake_amount) {
            Ok(()) => {},
            Err(_) => {
                return Err(Error::NotEnoughBalanceForStaking);
            },
        }
        let ghost pre = old(self)@;
        self.kitties.push(Kitty { dna });
        self.owners.push(owner);
        self.events.push(Event::KittyCreate(owner, kitty_id));
        proof {
            let post = self@;
            assert forall|a: u64| #[trigger] post.ledger.reserved(a) >= post.stake * owned_count(post.owners, a) by {
                lemma_owned_count_push(pre.owners, owner, a);
                assert(pre.ledger.reserved(a) >= pre.stake * owned_count(pre.owners, a));
                if a == owner {
                    assert(pre.stake * (owned_count(pre.owners, a) + 1) == pre.stake * owned_count(pre.owners, a) + pre.stake) by (nonlinear_arith);
                }
            }
            assert(post.kitties =~= pre.kitties.push(dna@));
            assert(post == pre.after_creation(owner, dna@));
        }
        Ok(kitty_id)
    }

    /// Creates a kitty for `who`, with a code derived from the randomness
    /// `seed` and the position `extrinsic_index` of the call in its batch.
    pub fn create(&mut self, who: AccountId, seed: &[u8; 32], extrinsic_index: Option<u32>) -> (r: Result<KittyIndex, Error>)
        requires
            old(self)@.wf(),
        ensures
            final(self)@.wf(),
            old(self)@.creation_outcome(final(self)@, who, identity_of(seed@, who, extrinsic_index), r),
    {
        let dna = random_value(who, seed, extrinsic_index);
        self.create_kitty_with_stake(who, dna)
    }

    /// Breeds a kitty for `who` from two distinct existing parents: its code
    /// takes each bit from the first parent where a freshly derived selector
    /// has a one, and from the second where it has a zero.
    pub fn breed(
        &mut self,
        who: AccountId,
        kitty_id_1: KittyIndex,
        kitty_id_2: KittyIndex,
        seed: &[u8; 32],
        extrinsic_index: Option<u32>,
    ) -> (r: Result<KittyIndex, Error>)
        requires
            old(self)@.wf(),
        ensures
            final(self)@.wf(),
            kitty_id_1 == kitty_id_2 ==> r == Err::<u32, Error>(Error::SameParentIndex),
            match old(self)@.breed_error(kitty_id_1, kitty_id_2) {
                Some(e) => r == Err::<u32, Error>(e) && final(self)@ == old(self)@,
                None => old(self)@.creation_outcome(
                    final(self)@,
                    who,
                    mixed_dna(
                        identity_of(seed@, who, extrinsic_index),
                        old(self)@.kitties[kitty_id_1 as int],
                        old(self)@.kitties[kitty_id_2 as int],
                    ),
                    r,
                ),
            },
    {
        if kitty_id_1 == kitty_id_2 {
            return Err(Error::SameParentIndex);
        }
        if kitty_id_1 as usize >= self.kitties.len() {
            return Err(Error::InvalidKittyIndex);
        }
        if kitty_id_2 as usize >= self.kitties.len() {
            return Err(Error::InvalidKittyIndex);
        }
        let dna_1 = self.kitties[kitty_id_1 as usize].dna;
        let dna_2 = self.kitties[kitty_id_2 as usize].dna;
        let selector = random_value(who, seed, extrinsic_index);
        let new_dna = mix_dna(&selector, &dna_1, &dna_2);
        self.create_kitty_with_stake(who, new_dna)
    }

    /// Lists kitty `kitty_id` of `who` at `price`; listing without a price
    /// withdraws it from sale.
    pub fn sell(&mut self, who: AccountId, kitty_id: KittyIndex, price: Option<Balance>) -> (r: Result<(), Error>)
        requires
            old(self)@.wf(),
        ensures
            final(self)@.wf(),
            match old(self)@.owner_error(who, kitty_id) {
                Some(e) => r == Err::<(), Error>(e) && final(self)@ == old(self)@,
                None => r == Ok::<(), Error>(()) && final(self)@ == old(self)@.after_listing(who, kitty_id, price),
            },
    {
        if kitty_id as usize >= self.owners.len() || self.owners[kitty_id as usize] != who {
            return Err(Error::NotOwner);
        }
        self.list_for_sale.insert(kitty_id, price);
        self.events.push(Event::KittyListed(who, kitty_id, price));
        Ok(())
    }

    /// Gives kitty `kitty_id` from `who` to `new_owner`, moving its stake
    /// with it.
    pub fn transfer(&mut self, who: AccountId, new_owner: AccountId, kitty_id: KittyIndex) -> (r: Result<(), Error>)
        requires
            old(self)@.wf(),
        ensures
            final(self)@.wf(),
            match old(self)@.transfer_error(who, new_owner, kitty_id) {
                Some(e) => r == Err::<(), Error>(e) && final(self)@ == old(self)@,
                None => r == Ok::<(), Error>(()) && final(self)@ == old(self)@.after_transfer(who, new_owner, kitty_id),
            },
    {
        if kitty_id as usize >= self.owners.len() || self.owners[kitty_id as usize] != who {
            return Err(Error::NotOwner);
        }
        let ghost pre = self@;
        let stake_amount = self.stake_for_each_kitty;
        proof {
            lemma_swap_keeps_backing(pre, kitty_id, new_owner);
        }
        match self.currency.swap_stake(who, new_owner, stake_amount) {
            Ok(()) => {},
            Err(_) => {
                return Err(Error::NotEnoughBalanceForStaking);
            },
        }
        self.owners.set(kitty_id as usize, new_owner);
        self.events.push(Event::KittyTransfer(who, new_owner, kitty_id));
        proof {
            assert(self@.owners =~= pre.owners.update(kitty_id as int, new_owner));
            assert(self@ == pre.after_transfer(who, new_owner, kitty_id));
        }
        Ok(())
    }

    /// `buyer` buys kitty `kitty_id` at its asking price. The stake moves
    /// from seller to buyer and the price is paid to the seller, all or
    /// nothing; ownership moves and the listing is cleared.
    pub fn buy(&mut self, buyer: AccountId, kitty_id: KittyIndex) -> (r: Result<(), Error>)
        requires
            old(self)@.wf(),
        ensures
            final(self)@.wf(),
            match old(self)@.sale_error(buyer, kitty_id) {
                Some(e) => r == Err::<(), Error>(e) && final(self)@ == old(self)@,
                None => r == Ok::<(), Error>(()) && final(self)@ == old(self)@.after_sale(buyer, kitty_id),
            },
    {
        if kitty_id as usize >= self.owners.len() {
            return Err(Error::InvalidKittyIndex);
        }
        let seller = self.owners[kitty_id as usize];
        if buyer == seller {
            return Err(Error::BuyerIsOwner);
        }
        let kitty_price: Balance = match self.list_for_sale.get(&kitty_id) {
            Some(Some(p)) => *p,
            _ => {
                return Err(Error::KittyNotForSell);
            },
        };
        let buyer_balance = self.currency.free_balance(buyer);
        let stake_amount = self.stake_for_each_kitty;
        if kitty_price > u128::MAX - stake_amount || buyer_balance <= kitty_price + stake_amount {
            return Err(Error::NotEnoughBalanceForBuying);
        }
        let ghost pre = self@;
        proof {
            lemma_swap_keeps_backing(pre, kitty_id, buyer);
        }
        let mut staged = self.currency.snapshot();
        match staged.swap_stake(seller, buyer, stake_amount) {
            Ok(()) => {},
            Err(_) => {
                return Err(Error::NotEnoughBalanceForStaking);
            },
        }
        match staged.transfer(buyer, seller, kitty_price) {
            Ok(()) => {},
            Err(e) => {
                return Err(Error::Payment(e));
            },
        }
        self.currency = staged;
        self.owners.set(kitty_id as usize, buyer);
        self.list_for_sale.remove(&kitty_id);
        self.events.push(Event::KittySold(buyer, seller, kitty_id));
        proof {
            let l2 = pre.after_swap(kitty_id, buyer);
            assert forall|a: u64| #[trigger] self@.ledger.reserved(a) == l2.reserved(a) by {}
            assert(self@.owners =~= pre.owners.update(kitty_id as int, buyer));
            assert(self@ == pre.after_sale(buyer, kitty_id));
        }
        Ok(())
    }

    /// The kitty with index `kitty_id`, if it exists.
    pub fn kitties(&self, kitty_id: KittyIndex) -> (r: Option<Kitty>)
        ensures
            r is Some <==> kitty_id < self@.kitties.len(),
            r matches Some(k) ==> k.dna@ == self@.kitties[kitty_id as int],
    {
        if (kitty_id as usize) < self.kitties.len() {
            Some(self.kitties[kitty_id as usize])
        } else {
            None
        }
    }

    /// The owner of kitty `kitty_id`, if it exists.
    pub fn owner(&self, kitty_id: KittyIndex) -> (r: Option<AccountId>)
        requires
            self@.wf(),
        ensures
            r == self@.owner(kitty_id),
    {
        if (kitty_id as usize) < self.owners.len() {
            Some(self.owners[kitty_id as usize])
        } else {
            None
        }
    }

    /// How many kitties exist; also the index the next one gets.
    pub fn kitties_count(&self) -> (r: KittyIndex)
        requires
            self@.wf(),
        ensures
            r == self@.kitties.len(),
    {
        self.kitties.len() as u32
    }

    /// The asking price of kitty `kitty_id`, if it is for sale.
    pub fn kitties_list_for_sales(&self, kitty_id: KittyIndex) -> (r: Option<Balance>)
        ensures
            r == self@.price(kitty_id),
    {
        match self.list_for_sale.get(&kitty_id) {
            Some(p) => *p,
            None => None,
        }
    }

    /// Everything reported so far, oldest first.
    pub fn events(&self) -> (r: &Vec<Event>)
        ensures
            r@ == self@.events,
    {
        &self.events
    }

    /// The amount reserved for each kitty owned.
    pub fn stake_for_each_kitty(&self) -> (r: Balance)
        ensures
            r == self@.stake,
    {
        self.stake_for_each_kitty
    }

    /// The spendable balance of `who`.
    pub fn free_balance(&self, who: AccountId) -> (r: Balance)
        ensures
            r == self@.ledger.free(who),
    {
        self.currency.free_balance(who)
    }

    /// The locked balance of `who`.
    pub fn reserved_balance(&self, who: AccountId) -> (r: Balance)
        ensures
            r == self@.ledger.reserved(who),
    {
        self.currency.reserved_balance(who)
    }

    /// Credits `amount` to the free balance of `who`; refused exactly when
    /// the account's total would not fit.
    pub fn deposit_creating(&mut self, who: AccountId, amount: Balance) -> (r: Result<(), BalanceError>)
        requires
            old(self)@.wf(),
        ensures
            final(self)@.wf(),
            r is Ok <==> old(self)@.ledger.free(who) + old(self)@.ledger.reserved(who) + amount <= u128::MAX,
            r is Ok ==> final(self)@ == (PalletView { ledger: old(self)@.ledger.after_deposit(who, amount), ..old(self)@ }),
            r is Err ==> final(self)@ == old(self)@,
    {
        let ghost pre = self@;
        let r = self.currency.deposit(who, amount);
        proof {
            assert forall|a: u64| #[trigger] self@.ledger.reserved(a) == pre.ledger.reserved(a) by {}
        }
        r
    }
}

} // verus!
