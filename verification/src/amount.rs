//! 256-bit unsigned amounts.
//!
//! An [`Amount`] holds the four 64-bit words of a `sp_core::U256`, least
//! significant first, and is read in contracts as the natural number they
//! spell. Addition and subtraction are done by `U256` itself.

use sp_core::U256;
use vstd::prelude::*;

verus! {

/// Two to the power 64: the weight of the second word of an [`Amount`].
pub open spec fn word_base() -> nat {
    0x1_0000_0000_0000_0000nat
}

/// The largest amount, two to the power 256 minus one. As an allowance it
/// stands for "unlimited".
pub open spec fn max_amount() -> nat {
    0xffff_ffff_ffff_ffff_ffff_ffff_ffff_ffff_ffff_ffff_ffff_ffff_ffff_ffff_ffff_ffffnat
}

/// The number that four 64-bit words spell, least significant word first.
pub open spec fn words_value(w0: u64, w1: u64, w2: u64, w3: u64) -> nat {
    (w0 + word_base() * (w1 + word_base() * (w2 + word_base() * w3))) as nat
}

/// An unsigned 256-bit quantity of tokens.
#[derive(Clone, Copy, Debug, PartialEq, Eq, Hash, Structural)]
pub struct Amount {
    w0: u64,
    w1: u64,
    w2: u64,
    w3: u64,
}

impl View for Amount {
    type V = nat;

    closed spec fn view(&self) -> nat {
        words_value(self.w0, self.w1, self.w2, self.w3)
    }
}

impl Amount {
    /// Every amount lies between zero and [`max_amount`].
    pub broadcast proof fn lemma_bounded(self)
        ensures
            #[trigger] self@ <= max_amount(),
    {
    }

    /// Two amounts that stand for the same number are the same amount.
    pub broadcast proof fn lemma_view_injective(self, other: Amount)
        ensures
            (#[trigger] self@ == #[trigger] other@) <==> self == other,
    {
    }

    /// The amount zero.
    pub fn zero() -> (r: Amount)
        ensures
            r@ == 0,
    {
        Amount { w0: 0, w1: 0, w2: 0, w3: 0 }
    }

    /// The largest amount.
    pub fn max_value() -> (r: Amount)
        ensures
            r@ == max_amount(),
    {
        Amount { w0: u64::MAX, w1: u64::MAX, w2: u64::MAX, w3: u64::MAX }
    }

    /// The amount made of the given words, least significant first.
    pub fn from_words(words: [u64; 4]) -> (r: Amount)
        ensures
            r@ == words_value(words[0], words[1], words[2], words[3]),
    {
        Amount { w0: words[0], w1: words[1], w2: words[2], w3: words[3] }
    }

    /// The four words of this amount, least significant first.
    pub fn to_words(&self) -> (words: [u64; 4])
        ensures
            words_value(words[0], words[1], words[2], words[3]) == self@,
    {
        [self.w0, self.w1, self.w2, self.w3]
    }

    /// The amount that a 64-bit number stands for: what `Amount::from` returns.
    pub closed spec fn spec_from_u64(v: u64) -> Amount {
        Amount { w0: v, w1: 0, w2: 0, w3: 0 }
    }

    /// Converting a 64-bit number keeps its value.
    pub broadcast proof fn lemma_from_u64(v: u64)
        ensures
            (#[trigger] Amount::spec_from_u64(v))@ == v,
    {
    }

    /// Whether this is the largest amount.
    pub fn is_max(&self) -> (r: bool)
        ensures
            r == (self@ == max_amount()),
    {
        self.w0 == u64::MAX && self.w1 == u64::MAX && self.w2 == u64::MAX && self.w3 == u64::MAX
    }
}

impl From<u64> for Amount {
    fn from(v: u64) -> (r: Amount) {
        Amount { w0: v, w1: 0, w2: 0, w3: 0 }
    }
}

impl vstd::std_specs::convert::FromSpecImpl<u64> for Amount {
    open spec fn obeys_from_spec() -> bool {
        true
    }

    open spec fn from_spec(v: u64) -> Amount {
        Amount::spec_from_u64(v)
    }
}

/// Calls `sp_core::U256::checked_add` on the words of `a` and `b`. Trusted,
/// not proved: that it returns the sum of the two numbers where the sum fits
/// in 256 bits, and `None` where it does not.
#[verifier::external_body]
pub(crate) fn checked_add(a: Amount, b: Amount) -> (sum: Option<Amount>)
    ensures
        match sum {
            Some(s) => s@ == a@ + b@,
            None => a@ + b@ > max_amount(),
        },
{
    match U256([a.w0, a.w1, a.w2, a.w3]).checked_add(U256([b.w0, b.w1, b.w2, b.w3])) {
        Some(U256(w)) => Some(Amount { w0: w[0], w1: w[1], w2: w[2], w3: w[3] }),
        None => None,
    }
}

/// Calls `sp_core::U256::checked_sub` on the words of `a` and `b`. Trusted,
/// not proved: that it returns `a` less `b` where `b` is not the larger, and
/// `None` where it is.
#[verifier::external_body]
pub(crate) fn checked_sub(a: Amount, b: Amount) -> (difference: Option<Amount>)
    ensures
        match difference {
            Some(d) => a@ >= b@ && d@ == a@ - b@,
            None => a@ < b@,
        },
{
    match U256([a.w0, a.w1, a.w2, a.w3]).checked_sub(U256([b.w0, b.w1, b.w2, b.w3])) {
        Some(U256(w)) => Some(Amount { w0: w[0], w1: w[1], w2: w[2], w3: w[3] }),
        None => None,
    }
}

} // verus!
