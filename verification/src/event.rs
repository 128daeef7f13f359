//! The records that successful operations leave behind.

use crate::amount::Amount;
use vstd::prelude::*;

verus! {

/// The identifier of an account holder.
pub type AccountId = u64;

/// A record of one change to the ledger.
#[derive(Clone, Copy, Debug, PartialEq, Eq, Structural)]
pub enum Event {
    /// `amount` tokens moved from `from` to `to`.
    Transfer { from: AccountId, to: AccountId, amount: Amount },
    /// `spender` may now withdraw `amount` tokens from `owner`.
    Approval { owner: AccountId, spender: AccountId, amount: Amount },
    /// `amount` new tokens were credited to `account`.
    Mint { account: AccountId, amount: Amount },
    /// `amount` tokens of `account` were destroyed.
    Burn { account: AccountId, amount: Amount },
}

/// An [`Event`] with its amount read as a natural number.
pub enum EventView {
    Transfer { from: AccountId, to: AccountId, amount: nat },
    Approval { owner: AccountId, spender: AccountId, amount: nat },
    Mint { account: AccountId, amount: nat },
    Burn { account: AccountId, amount: nat },
}

impl View for Event {
    type V = EventView;

    open spec fn view(&self) -> EventView {
        match *self {
            Event::Transfer { from, to, amount } => EventView::Transfer { from, to, amount: amount@ },
            Event::Approval { owner, spender, amount } => EventView::Approval {
                owner,
                spender,
                amount: amount@,
            },
            Event::Mint { account, amount } => EventView::Mint { account, amount: amount@ },
            Event::Burn { account, amount } => EventView::Burn { account, amount: amount@ },
        }
    }
}

} // verus!
