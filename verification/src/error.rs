//! The reasons for which an operation on the ledger is refused.

use vstd::prelude::*;

verus! {

/// Why an operation was refused. A refused operation changes nothing.
#[derive(Clone, Copy, Debug, PartialEq, Eq, Structural)]
pub enum Error {
    /// A balance or the total supply would leave the range of an amount.
    Overflow,
    /// The source account holds less than the amount to move.
    InsufficientFunds,
    /// The spender may withdraw less than the amount to move.
    InsufficientAllowance,
    /// The account holds less than the amount to burn.
    BurnExceedsBalance,
}

} // verus!
