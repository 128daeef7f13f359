//! The ledger itself: the state that a host keeps between calls, and the
//! operations that change it.
//!
//! Every operation makes all its checks before its first write, so a refused
//! call has written nothing. The contracts say so, and a change that left a
//! half-applied state behind would no longer verify.

use crate::amount::{checked_add, checked_sub, Amount};
use crate::error::Error;
use crate::event::{AccountId, Event, EventView};
use crate::laws::{
    lemma_burn_conserves, lemma_mint_conserves, lemma_transfer_conserves,
    lemma_transfer_from_conserves,
};
use crate::model::{seeded, LedgerState};
use std::collections::HashMap;
use vstd::prelude::*;

verus! {

broadcast use vstd::std_specs::hash::group_hash_axioms;

/// The key under which the allowance of `spender` over `owner` is stored:
/// the owner in the upper 64 bits, the spender in the lower.
spec fn pair_key(owner: AccountId, spender: AccountId) -> u128 {
    (owner as u128 * 0x1_0000_0000_0000_0000u128 + spender as u128) as u128
}

/// Different pairs have different keys.
proof fn lemma_pair_key_injective(o1: AccountId, s1: AccountId, o2: AccountId, s2: AccountId)
    ensures
        pair_key(o1, s1) == pair_key(o2, s2) <==> o1 == o2 && s1 == s2,
{
}

fn allowance_key(owner: AccountId, spender: AccountId) -> (key: u128)
    ensures
        key == pair_key(owner, spender),
{
    owner as u128 * 0x1_0000_0000_0000_0000u128 + spender as u128
}

/// Genesis balances with each amount read as a natural number.
pub open spec fn seed_view(balances: Seq<(AccountId, Amount)>) -> Seq<(AccountId, nat)> {
    balances.map_values(|entry: (AccountId, Amount)| (entry.0, entry.1@))
}

/// Records with each amount read as a natural number.
pub open spec fn events_view(events: Seq<Event>) -> Seq<EventView> {
    events.map_values(|event: Event| event@)
}

/// The state of one token: its supply, who holds how much, who may spend on
/// whose behalf, and the records of what has happened.
#[derive(Clone, Debug, PartialEq, Eq)]
pub struct Pallet {
    total_supply: Amount,
    balances: HashMap<AccountId, Amount>,
    allowances: HashMap<u128, Amount>,
    events: Vec<Event>,
}

impl View for Pallet {
    type V = LedgerState;

    closed spec fn view(&self) -> LedgerState {
        LedgerState {
            total_supply: self.total_supply@,
            balances: Map::new(
                |account: AccountId| self.balances@.contains_key(account),
                |account: AccountId| self.balances@[account]@,
            ),
            allowances: Map::new(
                |pair: (AccountId, AccountId)| self.allowances@.contains_key(pair_key(pair.0, pair.1)),
                |pair: (AccountId, AccountId)| self.allowances@[pair_key(pair.0, pair.1)]@,
            ),
            events: events_view(self.events@),
        }
    }
}

impl Pallet {
    /// The ledger at genesis: the declared total supply, the given balances
    /// written in order, no allowances and no records. The supply is not
    /// held against the balances: that they agree is for the caller to see to.
    pub fn initialize(total_supply: Amount, balances: &Vec<(AccountId, Amount)>) -> (ledger: Pallet)
        ensures
            ledger@ == LedgerState::genesis(total_supply@, seed_view(balances@)),
    {
        let mut written: HashMap<AccountId, Amount> = HashMap::new();
        let mut i: usize = 0;
        while i < balances.len()
            invariant
                i <= balances.len(),
                Map::new(
                    |account: AccountId| written@.contains_key(account),
                    |account: AccountId| written@[account]@,
                ) == seeded(seed_view(balances@.take(i as int))),
            decreases balances.len() - i,
        {
            let entry = balances[i];
            written.insert(entry.0, entry.1);
            i += 1;
            proof {
                let before = seed_view(balances@.take(i - 1));
                let now = seed_view(balances@.take(i as int));
                assert(now.drop_last() == before);
                assert(now.last() == (entry.0, entry.1@));
            }
        }
        assert(balances@.take(i as int) == balances@);
        Pallet { total_supply, balances: written, allowances: HashMap::new(), events: Vec::new() }
    }

    /// The number of tokens in existence.
    pub fn total_supply(&self) -> (supply: Amount)
        ensures
            supply@ == self@.total_supply,
    {
        self.total_supply
    }

    /// The tokens that `account` holds: zero for an account never written.
    pub fn balance_of(&self, account: AccountId) -> (balance: Amount)
        ensures
            balance@ == self@.balance_of(account),
    {
        match self.balances.get(&account) {
            Some(balance) => *balance,
            None => Amount::zero(),
        }
    }

    /// Every view of a ledger has finitely many accounts and holds only
    /// values that fit in an amount.
    pub proof fn lemma_view_valid(&self)
        ensures
            self@.finite(),
            self@.bounded(),
    {
        broadcast use Amount::lemma_bounded;

        assert(self@.balances.dom() =~= self.balances@.dom());
    }

    fn transfer_impl(&mut self, from: AccountId, to: AccountId, amount: Amount) -> (r: Result<
        (),
        Error,
    >)
        ensures
            match old(self)@.transfer(from, to, amount@) {
                Ok(next) => r is Ok && final(self)@ == next,
                Err(e) => r == Err::<(), Error>(e) && final(self)@ == old(self)@,
            },
    {
        let from_balance = self.balance_of(from);
        let debited = match checked_sub(from_balance, amount) {
            Some(debited) => debited,
            None => { return Err(Error::InsufficientFunds); },
        };
        let to_balance = self.balance_of(to);
        let credited = match checked_add(to_balance, amount) {
            Some(credited) => credited,
            None => { return Err(Error::Overflow); },
        };
        self.balances.insert(from, debited);
        self.balances.insert(to, if from == to { from_balance } else { credited });
        self.events.push(Event::Transfer { from, to, amount });
        proof {
            broadcast use Amount::lemma_view_injective, Amount::lemma_bounded;

            let next = old(self)@.transfer(from, to, amount@)->Ok_0;
            assert(self@.balances =~= next.balances);
            assert(self@.events =~= next.events);
        }
        Ok(())
    }

    fn approve_impl(&mut self, owner: AccountId, spender: AccountId, amount: Amount)
        ensures
            final(self)@ == old(self)@.approve(owner, spender, amount@),
    {
        self.allowances.insert(allowance_key(owner, spender), amount);
        self.events.push(Event::Approval { owner, spender, amount });
        proof {
            let next = old(self)@.approve(owner, spender, amount@);
            assert forall|pair: (AccountId, AccountId)|
                pair_key(pair.0, pair.1) == pair_key(owner, spender) implies pair == (owner, spender) by {
                lemma_pair_key_injective(pair.0, pair.1, owner, spender);
            }
            assert(self@.allowances =~= next.allowances);
            assert(self@.events =~= next.events);
        }
    }

    fn check_allowance(&self, owner: AccountId, spender: AccountId, amount: Amount) -> (r: Result<
        Option<Amount>,
        Error,
    >)
        ensures
            match self@.spend_allowance(owner, spender, amount@) {
                Ok(Some(left)) => r matches Ok(Some(a)) && a@ == left,
                Ok(None) => r == Ok::<Option<Amount>, Error>(None),
                Err(e) => r == Err::<Option<Amount>, Error>(e),
            },
    {
        let allowance = self.allowance(owner, spender);
        if allowance.is_max() {
            return Ok(None);
        }
        match checked_sub(allowance, amount) {
            Some(left) => Ok(Some(left)),
            None => Err(Error::InsufficientAllowance),
        }
    }

    /// What `spender` may still withdraw from `owner`: zero for a pair never
    /// approved.
    pub fn allowance(&self, owner: AccountId, spender: AccountId) -> (allowance: Amount)
        ensures
            allowance@ == self@.allowance(owner, spender),
    {
        match self.allowances.get(&allowance_key(owner, spender)) {
            Some(allowance) => *allowance,
            None => Amount::zero(),
        }
    }

    /// The records of the successful operations since genesis, or since they
    /// were last taken, oldest first.
    pub fn events(&self) -> (events: &Vec<Event>)
        ensures
            events_view(events@) == self@.events,
    {
        &self.events
    }

    /// Hands out the records and leaves the ledger with none. Balances,
    /// allowances and supply stay as they are.
    pub fn take_events(&mut self) -> (events: Vec<Event>)
        ensures
            events_view(events@) == old(self)@.events,
            final(self)@ == (LedgerState { events: Seq::empty(), ..old(self)@ }),
    {
        let mut events: Vec<Event> = Vec::new();
        std::mem::swap(&mut events, &mut self.events);
        assert(self@.events =~= Seq::empty());
        events
    }

    /// Moves `amount` tokens from `caller` to `to` and records the transfer.
    ///
    /// Refused with `InsufficientFunds` where `caller` holds less than
    /// `amount`, else with `Overflow` where the balance of `to` plus `amount`
    /// does not fit in an amount. Both balances are judged as they stand
    /// before the call, also where `caller` and `to` are one account, whose
    /// balance a successful transfer then leaves as it was.
    pub fn transfer(&mut self, caller: AccountId, to: AccountId, amount: Amount) -> (r: Result<
        (),
        Error,
    >)
        ensures
            match old(self)@.transfer(caller, to, amount@) {
                Ok(next) => r is Ok && final(self)@ == next,
                Err(e) => r == Err::<(), Error>(e) && final(self)@ == old(self)@,
            },
            old(self)@.conserved() ==> final(self)@.conserved(),
    {
        proof {
            self.lemma_view_valid();
            lemma_transfer_conserves(self@, caller, to, amount@);
        }
        self.transfer_impl(caller, to, amount)
    }

    /// Sets what `spender` may withdraw from `caller` to `amount`, replacing
    /// whatever stood before, and records the approval. Never refused.
    pub fn approve(&mut self, caller: AccountId, spender: AccountId, amount: Amount) -> (r: Result<
        (),
        Error,
    >)
        ensures
            r is Ok,
            final(self)@ == old(self)@.approve(caller, spender, amount@),
            old(self)@.conserved() ==> final(self)@.conserved(),
    {
        self.approve_impl(caller, spender, amount);
        Ok(())
    }

    /// Moves `amount` tokens from `owner` to `to` on behalf of `caller`, who
    /// must have been allowed at least that much by `owner`.
    ///
    /// Refused with `InsufficientAllowance` where the allowance is smaller
    /// than `amount`; else as a transfer from `owner` to `to` is refused. On
    /// success the transfer is recorded; then a limited allowance is lowered
    /// by `amount` and the new allowance recorded, while an unlimited one
    /// (the largest amount) is left alone and nothing more is recorded. A
    /// refused call changes nothing, the allowance included.
    pub fn transfer_from(
        &mut self,
        caller: AccountId,
        owner: AccountId,
        to: AccountId,
        amount: Amount,
    ) -> (r: Result<(), Error>)
        ensures
            match old(self)@.transfer_from(caller, owner, to, amount@) {
                Ok(next) => r is Ok && final(self)@ == next,
                Err(e) => r == Err::<(), Error>(e) && final(self)@ == old(self)@,
            },
            old(self)@.conserved() ==> final(self)@.conserved(),
    {
        proof {
            self.lemma_view_valid();
            lemma_transfer_from_conserves(self@, caller, owner, to, amount@);
        }
        let remaining = match self.check_allowance(owner, caller, amount) {
            Ok(remaining) => remaining,
            Err(e) => { return Err(e); },
        };
        match self.transfer_impl(owner, to, amount) {
            Ok(()) => {},
            Err(e) => { return Err(e); },
        }
        if let Some(left) = remaining {
            self.approve_impl(owner, caller, left);
        }
        Ok(())
    }

    /// Creates `amount` tokens in `account` and records the mint.
    ///
    /// Refused with `Overflow` where the total supply plus `amount`, or the
    /// balance of `account` plus `amount`, does not fit in an amount. Who may
    /// mint is for the caller to decide.
    pub fn mint(&mut self, account: AccountId, amount: Amount) -> (r: Result<(), Error>)
        ensures
            match old(self)@.mint(account, amount@) {
                Ok(next) => r is Ok && final(self)@ == next,
                Err(e) => r == Err::<(), Error>(e) && final(self)@ == old(self)@,
            },
            old(self)@.conserved() ==> final(self)@.conserved(),
    {
        proof {
            self.lemma_view_valid();
            lemma_mint_conserves(self@, account, amount@);
        }
        let balance = self.balance_of(account);
        let total_supply = match checked_add(self.total_supply, amount) {
            Some(total_supply) => total_supply,
            None => { return Err(Error::Overflow); },
        };
        let balance = match checked_add(balance, amount) {
            Some(balance) => balance,
            None => { return Err(Error::Overflow); },
        };
        self.total_supply = total_supply;
        self.balances.insert(account, balance);
        self.events.push(Event::Mint { account, amount });
        proof {
            broadcast use Amount::lemma_bounded;

            let next = old(self)@.mint(account, amount@)->Ok_0;
            assert(self@.balances =~= next.balances);
            assert(self@.events =~= next.events);
        }
        Ok(())
    }

    /// Destroys `amount` tokens of `account` and records the burn.
    ///
    /// Refused with `Overflow` where the total supply is smaller than
    /// `amount`, else with `BurnExceedsBalance` where `account` holds less
    /// than `amount`. Who may burn is for the caller to decide.
    pub fn burn(&mut self, account: AccountId, amount: Amount) -> (r: Result<(), Error>)
        ensures
            match old(self)@.burn(account, amount@) {
                Ok(next) => r is Ok && final(self)@ == next,
                Err(e) => r == Err::<(), Error>(e) && final(self)@ == old(self)@,
            },
            old(self)@.conserved() ==> final(self)@.conserved(),
    {
        proof {
            self.lemma_view_valid();
            lemma_burn_conserves(self@, account, amount@);
        }
        let balance = self.balance_of(account);
        let total_supply = match checked_sub(self.total_supply, amount) {
            Some(total_supply) => total_supply,
            None => { return Err(Error::Overflow); },
        };
        let balance = match checked_sub(balance, amount) {
            Some(balance) => balance,
            None => { return Err(Error::BurnExceedsBalance); },
        };
        self.total_supply = total_supply;
        self.balances.insert(account, balance);
        self.events.push(Event::Burn { account, amount });
        proof {
            let next = old(self)@.burn(account, amount@)->Ok_0;
            assert(self@.balances =~= next.balances);
            assert(self@.events =~= next.events);
        }
        Ok(())
    }
}

} // verus!
