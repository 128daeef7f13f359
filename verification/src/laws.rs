//! What holds of the ledger whatever the inputs: each law is stated over the
//! model of the operations and proved from their definitions.

use crate::amount::max_amount;
use crate::error::Error;
use crate::event::{AccountId, EventView};
use crate::model::{sum_values, LedgerState, Operation};
use vstd::prelude::*;

verus! {

/// The sum of a finite map is the value under any one key plus the sum of
/// the rest.
pub proof fn lemma_sum_remove(m: Map<AccountId, nat>, k: AccountId)
    requires
        m.dom().finite(),
        m.contains_key(k),
    ensures
        sum_values(m) == m[k] + sum_values(m.remove(k)),
    decreases m.dom().len(),
{
    let c = m.dom().choose();
    if c != k {
        lemma_sum_remove(m.remove(c), k);
        lemma_sum_remove(m.remove(k), c);
        assert(m.remove(c).remove(k) =~= m.remove(k).remove(c));
    }
}

/// Writing a value under a key changes the sum by the difference between
/// the new value and the old one, an absent key counting as zero.
pub proof fn lemma_sum_insert(m: Map<AccountId, nat>, k: AccountId, v: nat)
    requires
        m.dom().finite(),
    ensures
        sum_values(m.insert(k, v)) + (if m.contains_key(k) {
            m[k]
        } else {
            0
        }) == sum_values(m) + v,
{
    let written = m.insert(k, v);
    lemma_sum_remove(written, k);
    assert(written.remove(k) =~= m.remove(k));
    if m.contains_key(k) {
        lemma_sum_remove(m, k);
    } else {
        assert(m.remove(k) =~= m);
    }
}

/// No account holds more than all accounts together.
pub proof fn lemma_balance_within_circulating(s: LedgerState, account: AccountId)
    requires
        s.finite(),
    ensures
        s.balance_of(account) <= s.circulating(),
{
    if s.balances.contains_key(account) {
        lemma_sum_remove(s.balances, account);
    }
}

/// Conservation under transfer: a transfer leaves the sum of all balances
/// and the total supply as they were, so a ledger whose supply equals that
/// sum stays so.
pub proof fn lemma_transfer_conserves(s: LedgerState, from: AccountId, to: AccountId, amount: nat)
    requires
        s.finite(),
    ensures
        s.transfer(from, to, amount) matches Ok(next) ==> {
            &&& next.finite()
            &&& next.circulating() == s.circulating()
            &&& next.total_supply == s.total_supply
            &&& s.conserved() ==> next.conserved()
        },
{
    if s.transfer(from, to, amount) is Ok {
        let debited = s.with_balance(from, (s.balance_of(from) - amount) as nat);
        lemma_sum_insert(s.balances, from, (s.balance_of(from) - amount) as nat);
        lemma_sum_insert(debited.balances, to, debited.balance_of(to) + amount);
    }
}

/// Conservation under approve: an approval touches neither balances nor
/// supply.
pub proof fn lemma_approve_conserves(s: LedgerState, owner: AccountId, spender: AccountId, amount: nat)
    ensures
        s.approve(owner, spender, amount).balances == s.balances,
        s.approve(owner, spender, amount).total_supply == s.total_supply,
        s.finite() ==> s.approve(owner, spender, amount).finite(),
        s.conserved() ==> s.approve(owner, spender, amount).conserved(),
{
}

/// Conservation under transfer-on-behalf.
pub proof fn lemma_transfer_from_conserves(
    s: LedgerState,
    spender: AccountId,
    owner: AccountId,
    to: AccountId,
    amount: nat,
)
    requires
        s.finite(),
    ensures
        s.transfer_from(spender, owner, to, amount) matches Ok(next) ==> {
            &&& next.finite()
            &&& next.circulating() == s.circulating()
            &&& next.total_supply == s.total_supply
            &&& s.conserved() ==> next.conserved()
        },
{
    lemma_transfer_conserves(s, owner, to, amount);
}

/// Conservation under mint: supply and sum of balances grow by the same
/// amount.
pub proof fn lemma_mint_conserves(s: LedgerState, account: AccountId, amount: nat)
    requires
        s.finite(),
    ensures
        s.mint(account, amount) matches Ok(next) ==> {
            &&& next.finite()
            &&& next.circulating() == s.circulating() + amount
            &&& next.total_supply == s.total_supply + amount
            &&& s.conserved() ==> next.conserved()
        },
{
    lemma_sum_insert(s.balances, account, s.balance_of(account) + amount);
}

/// Conservation under burn: supply and sum of balances shrink by the same
/// amount.
pub proof fn lemma_burn_conserves(s: LedgerState, account: AccountId, amount: nat)
    requires
        s.finite(),
    ensures
        s.burn(account, amount) matches Ok(next) ==> {
            &&& next.finite()
            &&& next.circulating() == s.circulating() - amount
            &&& next.total_supply == s.total_supply - amount
            &&& s.conserved() ==> next.conserved()
        },
{
    if s.burn(account, amount) is Ok {
        lemma_sum_insert(s.balances, account, (s.balance_of(account) - amount) as nat);
        lemma_balance_within_circulating(s, account);
    }
}

/// Conservation: in every state that a run of calls reaches from a state
/// whose total supply equals the sum of all balances, the total supply
/// equals the sum of all balances.
pub proof fn lemma_conservation(s: LedgerState, ops: Seq<Operation>)
    requires
        s.finite(),
        s.conserved(),
    ensures
        s.after(ops).finite(),
        s.after(ops).conserved(),
    decreases ops.len(),
{
    if ops.len() > 0 {
        lemma_conservation(s, ops.drop_last());
        let before = s.after(ops.drop_last());
        match ops.last() {
            Operation::Transfer { caller, to, amount } => {
                lemma_transfer_conserves(before, caller, to, amount);
            },
            Operation::Approve { caller, spender, amount } => {
                lemma_approve_conserves(before, caller, spender, amount);
            },
            Operation::TransferFrom { caller, owner, to, amount } => {
                lemma_transfer_from_conserves(before, caller, owner, to, amount);
            },
            Operation::Mint { account, amount } => {
                lemma_mint_conserves(before, account, amount);
            },
            Operation::Burn { account, amount } => {
                lemma_burn_conserves(before, account, amount);
            },
        }
    }
}

/// Where the total supply equals the sum of all balances, a burn is never
/// refused for the supply: an account that holds the amount can burn it.
pub proof fn lemma_burn_refusal_when_conserved(s: LedgerState, account: AccountId, amount: nat)
    requires
        s.finite(),
        s.conserved(),
    ensures
        s.burn(account, amount) is Ok <==> amount <= s.balance_of(account),
        s.burn(account, amount) is Err ==> s.burn(account, amount) == Err::<LedgerState, Error>(
            if amount <= s.total_supply {
                Error::BurnExceedsBalance
            } else {
                Error::Overflow
            },
        ),
{
    lemma_balance_within_circulating(s, account);
}

/// A state is bounded where each of its values either fits in an amount or
/// is that of a bounded state.
proof fn lemma_bounded_carries(s: LedgerState, next: LedgerState)
    requires
        s.bounded(),
        next.total_supply <= max_amount(),
        forall|account: AccountId|
            next.balance_of(account) == s.balance_of(account) || #[trigger] next.balance_of(account)
                <= max_amount(),
        forall|owner: AccountId, spender: AccountId|
            next.allowance(owner, spender) == s.allowance(owner, spender) || #[trigger]
            next.allowance(owner, spender) <= max_amount(),
    ensures
        next.bounded(),
{
    assert forall|account: AccountId| #[trigger] next.balance_of(account) <= max_amount() by {
        assert(s.balance_of(account) <= max_amount());
    }
    assert forall|owner: AccountId, spender: AccountId| #[trigger]
        next.allowance(owner, spender) <= max_amount() by {
        assert(s.allowance(owner, spender) <= max_amount());
    }
}

/// No balance, allowance or supply leaves the range of an amount: from a
/// state whose values all fit, a transfer, a transfer-on-behalf, a mint or a
/// burn that is not refused leads to a state whose values all fit, and so
/// does an approval of an amount that fits.
pub proof fn lemma_operations_stay_bounded(
    s: LedgerState,
    caller: AccountId,
    holder: AccountId,
    to: AccountId,
    amount: nat,
)
    requires
        s.bounded(),
    ensures
        s.transfer(holder, to, amount) matches Ok(next) ==> next.bounded(),
        s.transfer_from(caller, holder, to, amount) matches Ok(next) ==> next.bounded(),
        s.mint(holder, amount) matches Ok(next) ==> next.bounded(),
        s.burn(holder, amount) matches Ok(next) ==> next.bounded(),
        amount <= max_amount() ==> s.approve(holder, caller, amount).bounded(),
{
    if s.transfer(holder, to, amount) is Ok {
        let moved = s.transfer(holder, to, amount)->Ok_0;
        lemma_bounded_carries(s, moved);
        if s.transfer_from(caller, holder, to, amount) is Ok {
            lemma_bounded_carries(moved, s.transfer_from(caller, holder, to, amount)->Ok_0);
        }
    }
    if s.mint(holder, amount) is Ok {
        lemma_bounded_carries(s, s.mint(holder, amount)->Ok_0);
    }
    if s.burn(holder, amount) is Ok {
        lemma_bounded_carries(s, s.burn(holder, amount)->Ok_0);
    }
    if amount <= max_amount() {
        lemma_bounded_carries(s, s.approve(holder, caller, amount));
    }
}

/// In every state that a run of calls with amounts that fit reaches from a
/// state whose values all fit in an amount, the values all fit in an amount.
pub proof fn lemma_always_bounded(s: LedgerState, ops: Seq<Operation>)
    requires
        s.bounded(),
        forall|i: int| 0 <= i < ops.len() ==> (#[trigger] ops[i]).amount() <= max_amount(),
    ensures
        s.after(ops).bounded(),
    decreases ops.len(),
{
    if ops.len() > 0 {
        lemma_always_bounded(s, ops.drop_last());
        let before = s.after(ops.drop_last());
        assert(ops.last().amount() <= max_amount());
        match ops.last() {
            Operation::Transfer { caller, to, amount } => {
                lemma_operations_stay_bounded(before, caller, caller, to, amount);
            },
            Operation::Approve { caller, spender, amount } => {
                lemma_operations_stay_bounded(before, spender, caller, caller, amount);
            },
            Operation::TransferFrom { caller, owner, to, amount } => {
                lemma_operations_stay_bounded(before, caller, owner, to, amount);
            },
            Operation::Mint { account, amount } => {
                lemma_operations_stay_bounded(before, account, account, account, amount);
            },
            Operation::Burn { account, amount } => {
                lemma_operations_stay_bounded(before, account, account, account, amount);
            },
        }
    }
}

/// A transfer from an account to itself, of an amount that the account
/// holds and could also receive, is not refused; it leaves every balance,
/// the supply and the allowances as they were and adds exactly one record,
/// that of the transfer.
pub proof fn lemma_self_transfer(s: LedgerState, account: AccountId, amount: nat)
    requires
        amount <= s.balance_of(account),
        s.balance_of(account) + amount <= max_amount(),
    ensures
        s.transfer(account, account, amount) matches Ok(next) && {
            &&& forall|other: AccountId| next.balance_of(other) == s.balance_of(other)
            &&& next.total_supply == s.total_supply
            &&& next.allowances == s.allowances
            &&& next.events == s.events.push(
                EventView::Transfer { from: account, to: account, amount },
            )
        },
{
}

/// The states that a run of transfer-on-behalf calls by `spender` on the
/// tokens of `owner` leads through, each call given by its destination and
/// its amount; a refused call leaves the state as it is.
pub open spec fn after_transfers_from(
    s: LedgerState,
    spender: AccountId,
    owner: AccountId,
    calls: Seq<(AccountId, nat)>,
) -> LedgerState
    decreases calls.len(),
{
    if calls.len() == 0 {
        s
    } else {
        let before = after_transfers_from(s, spender, owner, calls.drop_last());
        match before.transfer_from(spender, owner, calls.last().0, calls.last().1) {
            Ok(next) => next,
            Err(_) => before,
        }
    }
}

/// A transfer-on-behalf under an unlimited allowance leaves all allowances
/// as they were and, where it is not refused, adds the record of the
/// transfer and no other.
pub proof fn lemma_unlimited_allowance_untouched(
    s: LedgerState,
    spender: AccountId,
    owner: AccountId,
    to: AccountId,
    amount: nat,
)
    requires
        s.allowance(owner, spender) == max_amount(),
    ensures
        s.transfer_from(spender, owner, to, amount) matches Ok(next) ==> {
            &&& next.allowances == s.allowances
            &&& next.events == s.events.push(EventView::Transfer { from: owner, to, amount })
        },
{
}

/// An unlimited allowance is never decremented: after `owner` has approved
/// `spender` for the largest amount, any run of transfer-on-behalf calls by
/// that spender on that owner leaves the allowance at the largest amount,
/// and none of the records that the run adds is an approval.
pub proof fn lemma_unlimited_allowance_never_decremented(
    s: LedgerState,
    spender: AccountId,
    owner: AccountId,
    calls: Seq<(AccountId, nat)>,
)
    ensures
        ({
            let approved = s.approve(owner, spender, max_amount());
            let end = after_transfers_from(approved, spender, owner, calls);
            &&& end.allowance(owner, spender) == max_amount()
            &&& end.allowances == approved.allowances
            &&& approved.events.is_prefix_of(end.events)
            &&& forall|i: int|
                approved.events.len() <= i < end.events.len() ==> !(#[trigger] end.events[i]
                    is Approval)
        }),
    decreases calls.len(),
{
    let approved = s.approve(owner, spender, max_amount());
    if calls.len() > 0 {
        lemma_unlimited_allowance_never_decremented(s, spender, owner, calls.drop_last());
        let before = after_transfers_from(approved, spender, owner, calls.drop_last());
        lemma_unlimited_allowance_untouched(
            before,
            spender,
            owner,
            calls.last().0,
            calls.last().1,
        );
    }
}

/// Approve replaces and does not add: after two approvals in a row for one
/// owner and spender, the allowance is the second amount, and the allowances
/// are what the second approval alone would have left.
pub proof fn lemma_approve_replaces(
    s: LedgerState,
    owner: AccountId,
    spender: AccountId,
    first: nat,
    second: nat,
)
    ensures
        s.approve(owner, spender, first).approve(owner, spender, second).allowance(owner, spender)
            == second,
        s.approve(owner, spender, first).approve(owner, spender, second).allowances == s.approve(
            owner,
            spender,
            second,
        ).allowances,
{
    assert(s.approve(owner, spender, first).approve(owner, spender, second).allowances
        =~= s.approve(owner, spender, second).allowances);
}

/// The order in which a transfer-on-behalf judges: the allowance first,
/// whatever the balances are; then the balance of the owner; then that of
/// the destination. It is refused for the first of these that fails and for
/// no other reason.
pub proof fn lemma_transfer_from_refusals(
    s: LedgerState,
    spender: AccountId,
    owner: AccountId,
    to: AccountId,
    amount: nat,
)
    ensures
        ({
            let allowed = s.allowance(owner, spender) == max_amount() || amount <= s.allowance(
                owner,
                spender,
            );
            let funded = amount <= s.balance_of(owner);
            let fits = s.balance_of(to) + amount <= max_amount();
            match s.transfer_from(spender, owner, to, amount) {
                Err(Error::InsufficientAllowance) => !allowed,
                Err(Error::InsufficientFunds) => allowed && !funded,
                Err(Error::Overflow) => allowed && funded && !fits,
                Err(Error::BurnExceedsBalance) => false,
                Ok(_) => allowed && funded && fits,
            }
        }),
{
}

/// What a successful operation records: a transfer, an approval, a mint and
/// a burn one record each; a transfer-on-behalf the transfer and then, where
/// the allowance is limited, the approval of what is left of it.
pub proof fn lemma_records(
    s: LedgerState,
    caller: AccountId,
    holder: AccountId,
    to: AccountId,
    amount: nat,
)
    ensures
        s.transfer(holder, to, amount) matches Ok(next) ==> next.events == s.events.push(
            EventView::Transfer { from: holder, to, amount },
        ),
        s.approve(holder, caller, amount).events == s.events.push(
            EventView::Approval { owner: holder, spender: caller, amount },
        ),
        s.mint(holder, amount) matches Ok(next) ==> next.events == s.events.push(
            EventView::Mint { account: holder, amount },
        ),
        s.burn(holder, amount) matches Ok(next) ==> next.events == s.events.push(
            EventView::Burn { account: holder, amount },
        ),
        s.transfer_from(caller, holder, to, amount) matches Ok(next) ==> next.events == (if s.allowance(
            holder,
            caller,
        ) == max_amount() {
            s.events.push(EventView::Transfer { from: holder, to, amount })
        } else {
            s.events.push(EventView::Transfer { from: holder, to, amount }).push(
                EventView::Approval {
                    owner: holder,
                    spender: caller,
                    amount: (s.allowance(holder, caller) - amount) as nat,
                },
            )
        }),
{
}

} // verus!
