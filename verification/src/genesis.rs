//! How a ledger begins.

use crate::amount::Amount;
use crate::event::AccountId;
use crate::model::LedgerState;
use crate::pallet::{seed_view, Pallet};
use vstd::prelude::*;

verus! {

/// What a ledger starts from.
///
/// The total supply should be the sum of the balances. Nothing here holds
/// the one against the other: a ledger built from figures that disagree
/// starts, and stays, with a supply that is not the sum of its balances.
#[derive(Clone, Debug)]
pub struct GenesisConfig {
    /// The number of tokens in existence at the start.
    pub total_supply: Amount,
    /// The accounts that hold tokens at the start, and how many each. They
    /// are written in order: where an account occurs twice, its last balance
    /// stands.
    pub balances: Vec<(AccountId, Amount)>,
}

impl Default for GenesisConfig {
    /// No supply and no balances.
    fn default() -> (config: GenesisConfig)
        ensures
            config.total_supply@ == 0,
            config.balances@.len() == 0,
    {
        GenesisConfig { total_supply: Amount::zero(), balances: Vec::new() }
    }
}

impl GenesisConfig {
    /// The ledger that starts from these figures.
    pub fn build(&self) -> (ledger: Pallet)
        ensures
            ledger@ == LedgerState::genesis(self.total_supply@, seed_view(self.balances@)),
    {
        Pallet::initialize(self.total_supply, &self.balances)
    }
}

} // verus!
