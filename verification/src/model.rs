//! The ledger as mathematics: a state, and each operation as a function from
//! a state to the next state or to the reason for refusing.

use crate::amount::max_amount;
use crate::error::Error;
use crate::event::{AccountId, EventView};
use vstd::prelude::*;

verus! {

/// The sum of the values of a finite map.
pub open spec fn sum_values(m: Map<AccountId, nat>) -> nat
    decreases m.dom().len(),
    when m.dom().finite()
{
    if m.dom().is_empty() {
        0
    } else {
        let k = m.dom().choose();
        m[k] + sum_values(m.remove(k))
    }
}

/// The map that seeding the given balances in order yields. Where an account
/// occurs twice, its last balance stands.
pub open spec fn seeded(balances: Seq<(AccountId, nat)>) -> Map<AccountId, nat>
    decreases balances.len(),
{
    if balances.len() == 0 {
        Map::empty()
    } else {
        seeded(balances.drop_last()).insert(balances.last().0, balances.last().1)
    }
}

/// One call on a ledger, with its arguments.
pub enum Operation {
    Transfer { caller: AccountId, to: AccountId, amount: nat },
    Approve { caller: AccountId, spender: AccountId, amount: nat },
    TransferFrom { caller: AccountId, owner: AccountId, to: AccountId, amount: nat },
    Mint { account: AccountId, amount: nat },
    Burn { account: AccountId, amount: nat },
}

impl Operation {
    /// The amount that the call names.
    pub open spec fn amount(self) -> nat {
        match self {
            Operation::Transfer { amount, .. } => amount,
            Operation::Approve { amount, .. } => amount,
            Operation::TransferFrom { amount, .. } => amount,
            Operation::Mint { amount, .. } => amount,
            Operation::Burn { amount, .. } => amount,
        }
    }
}

/// All that a ledger holds.
#[verifier::ext_equal]
pub struct LedgerState {
    /// The number of tokens in existence, as declared at genesis and changed
    /// by mint and burn.
    pub total_supply: nat,
    /// The tokens of each account. An account without an entry holds none.
    pub balances: Map<AccountId, nat>,
    /// What each spender may withdraw from each owner, by (owner, spender).
    /// A pair without an entry has no allowance.
    pub allowances: Map<(AccountId, AccountId), nat>,
    /// The records of all successful operations, oldest first.
    pub events: Seq<EventView>,
}

impl LedgerState {
    /// The state at genesis: the declared supply and the seeded balances.
    /// The supply is taken as declared, whatever the balances add up to.
    pub open spec fn genesis(total_supply: nat, balances: Seq<(AccountId, nat)>) -> LedgerState {
        LedgerState {
            total_supply,
            balances: seeded(balances),
            allowances: Map::empty(),
            events: Seq::empty(),
        }
    }

    /// The tokens that `account` holds.
    pub open spec fn balance_of(self, account: AccountId) -> nat {
        if self.balances.contains_key(account) {
            self.balances[account]
        } else {
            0
        }
    }

    /// What `spender` may still withdraw from `owner`.
    pub open spec fn allowance(self, owner: AccountId, spender: AccountId) -> nat {
        if self.allowances.contains_key((owner, spender)) {
            self.allowances[(owner, spender)]
        } else {
            0
        }
    }

    /// The sum of all balances.
    pub open spec fn circulating(self) -> nat {
        sum_values(self.balances)
    }

    /// Only finitely many accounts have an entry.
    pub open spec fn finite(self) -> bool {
        self.balances.dom().finite()
    }

    /// The total supply equals the sum of all balances.
    pub open spec fn conserved(self) -> bool {
        self.total_supply == self.circulating()
    }

    /// The total supply, every balance and every allowance fit in an amount.
    pub open spec fn bounded(self) -> bool {
        &&& self.total_supply <= max_amount()
        &&& forall|account: AccountId| #[trigger] self.balance_of(account) <= max_amount()
        &&& forall|owner: AccountId, spender: AccountId| #[trigger]
            self.allowance(owner, spender) <= max_amount()
    }

    /// This state with the balance of `account` set to `value`.
    pub open spec fn with_balance(self, account: AccountId, value: nat) -> LedgerState {
        LedgerState { balances: self.balances.insert(account, value), ..self }
    }

    /// This state with one more record.
    pub open spec fn with_event(self, event: EventView) -> LedgerState {
        LedgerState { events: self.events.push(event), ..self }
    }

    /// Moves `amount` tokens from `from` to `to`. Both balances are judged as
    /// they stand before the move, so an account may pay itself only what it
    /// could also receive; its balance is then the same as before.
    pub open spec fn transfer(self, from: AccountId, to: AccountId, amount: nat) -> Result<
        LedgerState,
        Error,
    > {
        if self.balance_of(from) < amount {
            Err(Error::InsufficientFunds)
        } else if self.balance_of(to) + amount > max_amount() {
            Err(Error::Overflow)
        } else {
            let debited = self.with_balance(from, (self.balance_of(from) - amount) as nat);
            let credited = debited.with_balance(to, debited.balance_of(to) + amount);
            Ok(credited.with_event(EventView::Transfer { from, to, amount }))
        }
    }

    /// Sets what `spender` may withdraw from `owner` to `amount`, whatever it
    /// was before.
    pub open spec fn approve(self, owner: AccountId, spender: AccountId, amount: nat) -> LedgerState {
        LedgerState {
            allowances: self.allowances.insert((owner, spender), amount),
            ..self
        }.with_event(EventView::Approval { owner, spender, amount })
    }

    /// What is left of the allowance of `spender` over `owner` once `amount`
    /// is withdrawn: `None` where the allowance is unlimited and stays as it
    /// is, else the new value to write.
    pub open spec fn spend_allowance(self, owner: AccountId, spender: AccountId, amount: nat) -> Result<
        Option<nat>,
        Error,
    > {
        let allowance = self.allowance(owner, spender);
        if allowance == max_amount() {
            Ok(None)
        } else if allowance < amount {
            Err(Error::InsufficientAllowance)
        } else {
            Ok(Some((allowance - amount) as nat))
        }
    }

    /// Moves `amount` tokens from `owner` to `to` on behalf of `spender`. The
    /// allowance is judged first and written last, and only a limited one is
    /// written.
    pub open spec fn transfer_from(
        self,
        spender: AccountId,
        owner: AccountId,
        to: AccountId,
        amount: nat,
    ) -> Result<LedgerState, Error> {
        match self.spend_allowance(owner, spender, amount) {
            Err(e) => Err(e),
            Ok(remaining) => match self.transfer(owner, to, amount) {
                Err(e) => Err(e),
                Ok(moved) => match remaining {
                    Some(left) => Ok(moved.approve(owner, spender, left)),
                    None => Ok(moved),
                },
            },
        }
    }

    /// Creates `amount` tokens in `account`.
    pub open spec fn mint(self, account: AccountId, amount: nat) -> Result<LedgerState, Error> {
        if self.total_supply + amount > max_amount() || self.balance_of(account) + amount
            > max_amount() {
            Err(Error::Overflow)
        } else {
            Ok(
                LedgerState {
                    total_supply: self.total_supply + amount,
                    ..self
                }.with_balance(account, self.balance_of(account) + amount).with_event(
                    EventView::Mint { account, amount },
                ),
            )
        }
    }

    /// Destroys `amount` tokens of `account`. The supply is judged before the
    /// balance.
    pub open spec fn burn(self, account: AccountId, amount: nat) -> Result<LedgerState, Error> {
        if self.total_supply < amount {
            Err(Error::Overflow)
        } else if self.balance_of(account) < amount {
            Err(Error::BurnExceedsBalance)
        } else {
            Ok(
                LedgerState {
                    total_supply: (self.total_supply - amount) as nat,
                    ..self
                }.with_balance(account, (self.balance_of(account) - amount) as nat).with_event(
                    EventView::Burn { account, amount },
                ),
            )
        }
    }

    /// The outcome of one call: the next state, or why it is refused.
    pub open spec fn apply(self, op: Operation) -> Result<LedgerState, Error> {
        match op {
            Operation::Transfer { caller, to, amount } => self.transfer(caller, to, amount),
            Operation::Approve { caller, spender, amount } => Ok(
                self.approve(caller, spender, amount),
            ),
            Operation::TransferFrom { caller, owner, to, amount } => self.transfer_from(
                caller,
                owner,
                to,
                amount,
            ),
            Operation::Mint { account, amount } => self.mint(account, amount),
            Operation::Burn { account, amount } => self.burn(account, amount),
        }
    }

    /// The state that a run of calls leads to, a refused call leaving the
    /// state as it is.
    pub open spec fn after(self, ops: Seq<Operation>) -> LedgerState
        decreases ops.len(),
    {
        if ops.len() == 0 {
            self
        } else {
            let before = self.after(ops.drop_last());
            match before.apply(ops.last()) {
                Ok(next) => next,
                Err(_) => before,
            }
        }
    }
}

} // verus!
