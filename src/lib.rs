//! A registry of collectible kitties with stake-backed ownership and a
//! marketplace: creation, breeding, listing, transfer and sale.

pub mod dna;
pub mod laws;
pub mod ledger;
pub mod ownership;
pub mod pallet;

pub use dna::{blake2_128_of, identity_payload, mix_dna, mixed_dna, random_value};
pub use ledger::{AccountData, BalanceError, Ledger, LedgerView};
pub use pallet::{AccountId, Balance, Config, Error, Event, Kitty, KittyIndex, Pallet, PalletView};
