//! Token amounts: 512-bit unsigned integers.
//!
//! An [`Amount`] holds the eight little-endian 64-bit words of a
//! `casper_types::U512`. The arithmetic itself is done by `U512`; this module
//! says what each operation means for the number that the words stand for.

use vstd::prelude::*;
use vstd::arithmetic::power2::{pow2, lemma_pow2_adds, lemma2_to64, lemma2_to64_rest};
use odra_core::casper_types::U512;

verus! {

/// The weight of one word relative to the word before it: `2^64`.
pub open spec fn word_base() -> nat {
    0x1_0000_0000_0000_0000
}

/// A non-negative amount of tokens below `2^512`, as eight 64-bit words,
/// least significant first.
#[derive(Clone, Copy, Debug, PartialEq, Eq)]
pub struct Amount {
    pub limbs: [u64; 8],
}

impl Amount {
    /// The number that the words stand for,
    /// `limbs[0] + 2^64 * limbs[1] + ... + 2^448 * limbs[7]`, written with
    /// the common factors taken out.
    pub open spec fn value(self) -> nat {
        let l = self.limbs@;
        let b = word_base();
        l[0] as nat + b * (l[1] as nat + b * (l[2] as nat + b * (l[3] as nat + b * (l[4] as nat
            + b * (l[5] as nat + b * (l[6] as nat + b * (l[7] as nat)))))))
    }

    /// Every amount is below `2^512`.
    pub proof fn lemma_value_bound(self)
        ensures
            self.value() < pow2(512),
    {
        lemma2_to64();
        lemma2_to64_rest();
        lemma_pow2_adds(64, 64);
        lemma_pow2_adds(64, 128);
        lemma_pow2_adds(64, 192);
        lemma_pow2_adds(64, 256);
        lemma_pow2_adds(64, 320);
        lemma_pow2_adds(64, 384);
        lemma_pow2_adds(64, 448);
    }

    /// Two amounts that stand for the same number are the same amount.
    pub proof fn lemma_value_injective(self, other: Amount)
        requires
            self.value() == other.value(),
        ensures
            self == other,
    {
        assert(self.limbs@ =~= other.limbs@);
        assert(self.limbs =~= other.limbs);
    }

    /// The amount that stands for `v`.
    pub fn from_u64(v: u64) -> (amount: Amount)
        ensures
            amount.value() == v,
    {
        Amount { limbs: [v, 0, 0, 0, 0, 0, 0, 0] }
    }

    /// Whether the amount is zero. Calls `U512::is_zero`, which looks for a
    /// word that is not zero.
    #[verifier::external_body]
    pub(crate) fn is_zero(&self) -> (zero: bool)
        ensures
            zero == (self.value() == 0),
    {
        U512(self.limbs).is_zero()
    }

    /// Whether `self` is the smaller number. Calls `<` of `U512`, which
    /// compares the words from the most significant down.
    #[verifier::external_body]
    pub(crate) fn less_than(&self, other: &Amount) -> (less: bool)
        ensures
            less == (self.value() < other.value()),
    {
        U512(self.limbs) < U512(other.limbs)
    }

    /// The sum, where it is below `2^512`. Calls `U512::checked_add`, which
    /// adds word by word with carry and gives `None` when a carry leaves the
    /// last word.
    #[verifier::external_body]
    pub(crate) fn checked_add(&self, other: &Amount) -> (sum: Option<Amount>)
        ensures
            match sum {
                Some(s) => s.value() == self.value() + other.value(),
                None => self.value() + other.value() >= pow2(512),
            },
    {
        match U512(self.limbs).checked_add(U512(other.limbs)) {
            Some(s) => Some(Amount { limbs: s.0 }),
            None => None,
        }
    }

    /// The sum of two amounts. Calls `+` of `U512`, which panics when the sum
    /// does not fit: the precondition leaves those inputs out.
    #[verifier::external_body]
    pub(crate) fn plus(&self, other: &Amount) -> (sum: Amount)
        requires
            self.value() + other.value() < pow2(512),
        ensures
            sum.value() == self.value() + other.value(),
    {
        Amount { limbs: (U512(self.limbs) + U512(other.limbs)).0 }
    }

    /// The difference of two amounts. Calls `-` of `U512`, which panics when
    /// `other` is the larger: the precondition leaves those inputs out.
    #[verifier::external_body]
    pub(crate) fn minus(&self, other: &Amount) -> (difference: Amount)
        requires
            other.value() <= self.value(),
        ensures
            difference.value() == self.value() - other.value(),
    {
        Amount { limbs: (U512(self.limbs) - U512(other.limbs)).0 }
    }
}

} // verus!
