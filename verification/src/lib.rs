//! A fungible-token ledger: balances, spending allowances and total supply,
//! changed only by transfer, approve, transfer-on-behalf, mint and burn.
//!
//! Every operation either applies completely or leaves the ledger untouched,
//! and its contract says which of the two happens on which inputs.
//!
//! [`model`] defines the ledger as mathematics, [`pallet`] is the ledger that
//! runs, each of its operations tied to the model by its contract, and
//! [`laws`] proves what holds of the model whatever the inputs.

pub mod amount;
pub mod error;
pub mod event;
pub mod genesis;
pub mod laws;
pub mod model;
pub mod pallet;

pub use amount::Amount;
pub use error::Error;
pub use event::{AccountId, Event};
pub use genesis::GenesisConfig;
pub use pallet::Pallet;
