use kitties::{
    mix_dna, random_value, BalanceError, Config, Error, Event, Ledger, Pallet,
};

const STAKE: u128 = 10;

fn pallet() -> Pallet {
    Pallet::new(Config { stake_for_each_kitty: STAKE, max_kitty_index: u32::MAX, existential_deposit: 0 })
}

fn funded(accounts: &[(u64, u128)]) -> Pallet {
    let mut p = pallet();
    for &(who, amount) in accounts {
        p.deposit_creating(who, amount).unwrap();
    }
    p
}

const SEED: [u8; 32] = [7u8; 32];

#[test]
fn create_works() {
    let mut p = funded(&[(1, 1_000)]);
    let account_id: u64 = 1;
    assert!(p.create(account_id, &SEED, Some(0)).is_ok());
}

#[test]
fn create_takes_next_index_and_reserves_stake() {
    let mut p = funded(&[(1, 100)]);
    assert_eq!(p.kitties_count(), 0);
    assert_eq!(p.owner(0), None);
    assert_eq!(p.create(1, &SEED, Some(0)), Ok(0));
    assert_eq!(p.kitties_count(), 1);
    assert_eq!(p.owner(0), Some(1));
    assert_eq!(p.free_balance(1), 90);
    assert_eq!(p.reserved_balance(1), 10);
    assert_eq!(p.create(1, &SEED, Some(1)), Ok(1));
    assert_eq!(p.kitties_count(), 2);
    assert_eq!(p.owner(1), Some(1));
    assert_eq!(p.reserved_balance(1), 20);
    assert_eq!(p.events()[0], Event::KittyCreate(1, 0));
    assert_eq!(p.events()[1], Event::KittyCreate(1, 1));
    assert_eq!(p.kitties(0).unwrap().dna, random_value(1, &SEED, Some(0)));
    assert!(p.kitties(2).is_none());
}

#[test]
fn create_without_stake_fails_and_changes_nothing() {
    let mut p = funded(&[(1, 9)]);
    assert_eq!(p.create(1, &SEED, None), Err(Error::NotEnoughBalanceForStaking));
    assert_eq!(p.kitties_count(), 0);
    assert_eq!(p.owner(0), None);
    assert_eq!(p.free_balance(1), 9);
    assert_eq!(p.reserved_balance(1), 0);
    assert!(p.events().is_empty());
}

#[test]
fn create_past_maximum_overflows() {
    let mut p = Pallet::new(Config { stake_for_each_kitty: STAKE, max_kitty_index: 1, existential_deposit: 0 });
    p.deposit_creating(1, 100).unwrap();
    assert_eq!(p.create(1, &SEED, Some(0)), Ok(0));
    assert_eq!(p.create(1, &SEED, Some(1)), Err(Error::KittiesCountOverflow));
    assert_eq!(p.kitties_count(), 1);
    assert_eq!(p.reserved_balance(1), 10);
}

#[test]
fn identity_depends_on_caller_and_position() {
    let a = random_value(1, &SEED, Some(0));
    assert_eq!(a, random_value(1, &SEED, Some(0)));
    assert_ne!(a, random_value(2, &SEED, Some(0)));
    assert_ne!(a, random_value(1, &SEED, Some(1)));
    assert_ne!(a, random_value(1, &SEED, None));
}

#[test]
fn identity_hashes_seed_caller_and_position() {
    let mut payload: Vec<u8> = SEED.to_vec();
    payload.extend_from_slice(&0x0102030405060708u64.to_le_bytes());
    payload.push(1);
    payload.extend_from_slice(&3u32.to_le_bytes());
    let expected = sp_io::hashing::blake2_128(&payload);
    assert_eq!(random_value(0x0102030405060708, &SEED, Some(3)), expected);

    let mut payload: Vec<u8> = SEED.to_vec();
    payload.extend_from_slice(&5u64.to_le_bytes());
    payload.push(0);
    assert_eq!(random_value(5, &SEED, None), sp_io::hashing::blake2_128(&payload));
}

#[test]
fn mix_dna_selects_bits() {
    let mut selector = [0u8; 16];
    let mut a = [0u8; 16];
    let mut b = [0u8; 16];
    selector[0] = 0xF0;
    a[0] = 0xAA;
    b[0] = 0x55;
    selector[1] = 0xFF;
    a[1] = 0x12;
    b[1] = 0x34;
    selector[2] = 0x00;
    a[2] = 0x12;
    b[2] = 0x34;
    selector[15] = 0b1010_0101;
    a[15] = 0b1111_0000;
    b[15] = 0b0000_1111;
    let r = mix_dna(&selector, &a, &b);
    assert_eq!(r[0], 0xA5);
    assert_eq!(r[1], 0x12);
    assert_eq!(r[2], 0x34);
    assert_eq!(r[15], 0b1010_1010);
    for i in 3..15 {
        assert_eq!(r[i], 0);
    }
    for i in 0..16 {
        assert_eq!(r[i], (selector[i] & a[i]) | (!selector[i] & b[i]));
    }
}

#[test]
fn breed_combines_parents() {
    let mut p = funded(&[(1, 100)]);
    p.create(1, &SEED, Some(0)).unwrap();
    p.create(1, &SEED, Some(1)).unwrap();
    assert_eq!(p.breed(1, 0, 1, &SEED, Some(2)), Ok(2));
    let d0 = p.kitties(0).unwrap().dna;
    let d1 = p.kitties(1).unwrap().dna;
    let selector = random_value(1, &SEED, Some(2));
    assert_eq!(p.kitties(2).unwrap().dna, mix_dna(&selector, &d0, &d1));
    assert_eq!(p.owner(2), Some(1));
    assert_eq!(p.reserved_balance(1), 30);
}

#[test]
fn breed_twice_gives_distinct_kitties() {
    let mut p = funded(&[(1, 100)]);
    p.create(1, &SEED, Some(0)).unwrap();
    p.create(1, &SEED, Some(1)).unwrap();
    let first = p.breed(1, 0, 1, &SEED, Some(2)).unwrap();
    let second = p.breed(1, 0, 1, &SEED, Some(3)).unwrap();
    assert_ne!(first, second);
    assert_ne!(p.kitties(first).unwrap().dna, p.kitties(second).unwrap().dna);
}

#[test]
fn breed_same_parent_fails() {
    let mut p = funded(&[(1, 100)]);
    p.create(1, &SEED, Some(0)).unwrap();
    assert_eq!(p.breed(1, 0, 0, &SEED, Some(1)), Err(Error::SameParentIndex));
    assert_eq!(p.breed(1, 7, 7, &SEED, Some(1)), Err(Error::SameParentIndex));
    assert_eq!(p.kitties_count(), 1);
}

#[test]
fn breed_missing_parent_fails() {
    let mut p = funded(&[(1, 100)]);
    p.create(1, &SEED, Some(0)).unwrap();
    assert_eq!(p.breed(1, 0, 1, &SEED, Some(1)), Err(Error::InvalidKittyIndex));
    assert_eq!(p.breed(1, 5, 0, &SEED, Some(1)), Err(Error::InvalidKittyIndex));
    assert_eq!(p.kitties_count(), 1);
    assert_eq!(p.reserved_balance(1), 10);
}

#[test]
fn sell_by_non_owner_fails() {
    let mut p = funded(&[(1, 100), (2, 100)]);
    p.create(1, &SEED, Some(0)).unwrap();
    assert_eq!(p.sell(2, 0, Some(5)), Err(Error::NotOwner));
    assert_eq!(p.sell(1, 3, Some(5)), Err(Error::NotOwner));
    assert_eq!(p.kitties_list_for_sales(0), None);
    assert_eq!(p.sell(1, 0, Some(5)), Ok(()));
    assert_eq!(p.kitties_list_for_sales(0), Some(5));
    assert_eq!(p.events()[1], Event::KittyListed(1, 0, Some(5)));
}

#[test]
fn transfer_moves_kitty_and_stake() {
    let mut p = funded(&[(1, 100), (2, 100)]);
    p.create(1, &SEED, Some(0)).unwrap();
    assert_eq!(p.transfer(2, 3, 0), Err(Error::NotOwner));
    assert_eq!(p.transfer(1, 2, 0), Ok(()));
    assert_eq!(p.owner(0), Some(2));
    assert_eq!(p.reserved_balance(1), 0);
    assert_eq!(p.free_balance(1), 100);
    assert_eq!(p.reserved_balance(2), 10);
    assert_eq!(p.free_balance(2), 90);
    assert_eq!(p.events()[1], Event::KittyTransfer(1, 2, 0));
}

#[test]
fn transfer_to_unfunded_account_fails() {
    let mut p = funded(&[(1, 100), (2, 9)]);
    p.create(1, &SEED, Some(0)).unwrap();
    assert_eq!(p.transfer(1, 2, 0), Err(Error::NotEnoughBalanceForStaking));
    assert_eq!(p.owner(0), Some(1));
    assert_eq!(p.reserved_balance(1), 10);
    assert_eq!(p.free_balance(2), 9);
    assert_eq!(p.events().len(), 1);
}

#[test]
fn buy_unlisted_fails() {
    let mut p = funded(&[(1, 100), (2, 1_000)]);
    p.create(1, &SEED, Some(0)).unwrap();
    assert_eq!(p.buy(2, 0), Err(Error::KittyNotForSell));
    p.sell(1, 0, None).unwrap();
    assert_eq!(p.buy(2, 0), Err(Error::KittyNotForSell));
    assert_eq!(p.owner(0), Some(1));
    assert_eq!(p.reserved_balance(1), 10);
    assert_eq!(p.reserved_balance(2), 0);
    assert_eq!(p.free_balance(2), 1_000);
    assert_eq!(p.kitties_list_for_sales(0), None);
}

#[test]
fn buy_by_owner_fails() {
    let mut p = funded(&[(1, 1_000)]);
    p.create(1, &SEED, Some(0)).unwrap();
    p.sell(1, 0, Some(5)).unwrap();
    assert_eq!(p.buy(1, 0), Err(Error::BuyerIsOwner));
    assert_eq!(p.kitties_list_for_sales(0), Some(5));
}

#[test]
fn buy_missing_kitty_fails() {
    let mut p = funded(&[(1, 1_000)]);
    assert_eq!(p.buy(1, 0), Err(Error::InvalidKittyIndex));
}

#[test]
fn buy_needs_more_than_price_plus_stake() {
    let mut p = funded(&[(1, 100), (2, 60), (3, 61)]);
    p.create(1, &SEED, Some(0)).unwrap();
    p.sell(1, 0, Some(50)).unwrap();
    assert_eq!(p.buy(2, 0), Err(Error::NotEnoughBalanceForBuying));
    assert_eq!(p.owner(0), Some(1));
    assert_eq!(p.free_balance(2), 60);
    assert_eq!(p.buy(3, 0), Ok(()));
    assert_eq!(p.owner(0), Some(3));
    assert_eq!(p.free_balance(3), 1);
}

#[test]
fn buy_with_huge_price_fails() {
    let mut p = funded(&[(1, 100), (2, u128::MAX)]);
    p.create(1, &SEED, Some(0)).unwrap();
    p.sell(1, 0, Some(u128::MAX - 5)).unwrap();
    assert_eq!(p.buy(2, 0), Err(Error::NotEnoughBalanceForBuying));
}

#[test]
fn buy_end_to_end() {
    let price: u128 = 50;
    let mut p = funded(&[(1, 100), (2, 200)]);
    assert_eq!(p.create(1, &SEED, Some(0)), Ok(0));
    assert_eq!(p.reserved_balance(1), 10);
    p.sell(1, 0, Some(price)).unwrap();
    assert_eq!(p.buy(2, 0), Ok(()));
    assert_eq!(p.owner(0), Some(2));
    assert_eq!(p.reserved_balance(1), 0);
    assert_eq!(p.free_balance(1), 100 + price);
    assert_eq!(p.reserved_balance(2), 10);
    assert_eq!(p.free_balance(2), 200 - price - 10);
    assert_eq!(p.kitties_list_for_sales(0), None);
    assert_eq!(p.events().last(), Some(&Event::KittySold(2, 1, 0)));
}

#[test]
fn buy_payment_refused_rolls_back() {
    let mut p = Pallet::new(Config { stake_for_each_kitty: STAKE, max_kitty_index: 100, existential_deposit: 5 });
    p.deposit_creating(1, 100).unwrap();
    p.deposit_creating(2, 63).unwrap();
    p.create(1, &SEED, Some(0)).unwrap();
    p.sell(1, 0, Some(50)).unwrap();
    assert_eq!(p.buy(2, 0), Err(Error::Payment(BalanceError::KeepAlive)));
    assert_eq!(p.owner(0), Some(1));
    assert_eq!(p.reserved_balance(1), 10);
    assert_eq!(p.free_balance(1), 90);
    assert_eq!(p.reserved_balance(2), 0);
    assert_eq!(p.free_balance(2), 63);
    assert_eq!(p.kitties_list_for_sales(0), Some(50));
    assert_eq!(p.events().len(), 2);
}

#[test]
fn ledger_rules() {
    let mut l = Ledger::new(3);
    assert_eq!(l.deposit(1, 10), Ok(()));
    assert_eq!(l.deposit(1, u128::MAX), Err(BalanceError::Overflow));
    assert_eq!(l.reserve(1, 11), Err(BalanceError::InsufficientBalance));
    assert_eq!(l.reserve(1, 4), Ok(()));
    assert_eq!((l.free_balance(1), l.reserved_balance(1)), (6, 4));
    assert_eq!(l.transfer(1, 2, 7), Err(BalanceError::InsufficientBalance));
    assert_eq!(l.transfer(1, 2, 4), Err(BalanceError::KeepAlive));
    assert_eq!(l.transfer(1, 2, 3), Ok(()));
    assert_eq!((l.free_balance(1), l.free_balance(2)), (3, 3));
    l.unreserve(1, 4);
    assert_eq!((l.free_balance(1), l.reserved_balance(1)), (7, 0));
    assert_eq!(l.deposit(3, u128::MAX), Ok(()));
    assert_eq!(l.transfer(1, 3, 1), Err(BalanceError::Overflow));
    assert_eq!(l.existential_deposit(), 3);
}

#[test]
fn swap_stake_reserves_before_releasing() {
    let mut l = Ledger::new(0);
    l.deposit(1, 20).unwrap();
    l.deposit(2, 5).unwrap();
    l.reserve(1, 10).unwrap();
    assert_eq!(l.swap_stake(1, 2, 10), Err(BalanceError::InsufficientBalance));
    assert_eq!((l.free_balance(1), l.reserved_balance(1)), (10, 10));
    assert_eq!((l.free_balance(2), l.reserved_balance(2)), (5, 0));
    l.deposit(2, 5).unwrap();
    assert_eq!(l.swap_stake(1, 2, 10), Ok(()));
    assert_eq!((l.free_balance(1), l.reserved_balance(1)), (20, 0));
    assert_eq!((l.free_balance(2), l.reserved_balance(2)), (0, 10));
}
