//! 256-bit words.
use crate::bytes::{be_bytes, lemma_pow256_values, pow256};
use vstd::prelude::*;

verus! {

/// The number with the given 64-bit digits, least significant first.
pub open spec fn limbs_value(limbs: Seq<u64>) -> nat {
    limbs[0] as nat + 0x1_0000_0000_0000_0000nat * (limbs[1] as nat + 0x1_0000_0000_0000_0000nat * (
    limbs[2] as nat + 0x1_0000_0000_0000_0000nat * limbs[3] as nat))
}

/// A 256-bit unsigned word, held as four 64-bit digits, least significant first.
#[derive(Clone, Copy, Debug, PartialEq, Eq, Hash)]
pub struct PqU256 {
    pub limbs: [u64; 4],
}

impl View for PqU256 {
    type V = nat;

    open spec fn view(&self) -> nat {
        limbs_value(self.limbs@)
    }
}

/// Every word is below 2^256.
pub proof fn lemma_word_bound(w: PqU256)
    ensures
        w@ < pow256(32),
{
    lemma_pow256_values();
}

impl Default for PqU256 {
    fn default() -> (w: Self)
        ensures
            w@ == 0,
    {
        PqU256::zero()
    }
}

impl PqU256 {
    pub fn zero() -> (w: PqU256)
        ensures
            w@ == 0,
    {
        PqU256 { limbs: [0, 0, 0, 0] }
    }

    pub fn from_u64(value: u64) -> (w: PqU256)
        ensures
            w@ == value,
    {
        PqU256 { limbs: [value, 0, 0, 0] }
    }

    /// Whether `self` is the smaller number.
    pub fn less_than(&self, other: &PqU256) -> (less: bool)
        ensures
            less == (self@ < other@),
    {
        alloy_less_than(self.limbs, other.limbs)
    }

    /// Whether the two words are the same number.
    pub fn same(&self, other: &PqU256) -> (same: bool)
        ensures
            same == (self@ == other@),
    {
        !self.less_than(other) && !other.less_than(self)
    }

    /// The sum, or `None` if it does not fit in 256 bits.
    pub fn checked_add(&self, other: &PqU256) -> (sum: Option<PqU256>)
        ensures
            sum is Some <==> self@ + other@ < pow256(32),
            sum matches Some(w) ==> w@ == self@ + other@,
    {
        match alloy_checked_add(self.limbs, other.limbs) {
            Some(limbs) => Some(PqU256 { limbs }),
            None => None,
        }
    }

    /// The difference, or `None` if it would be negative.
    pub fn checked_sub(&self, other: &PqU256) -> (difference: Option<PqU256>)
        ensures
            difference is Some <==> self@ >= other@,
            difference matches Some(w) ==> w@ == self@ - other@,
    {
        match alloy_checked_sub(self.limbs, other.limbs) {
            Some(limbs) => Some(PqU256 { limbs }),
            None => None,
        }
    }

    /// The 32 bytes of the word, most significant first.
    pub fn to_be_bytes(&self) -> (out: [u8; 32])
        ensures
            out@ == be_bytes(self@, 32),
    {
        alloy_to_be_bytes(self.limbs)
    }
}

/// `<` of `alloy_primitives::U256`, on the numbers that the digits spell:
/// compares them as integers.
#[verifier::external_body]
fn alloy_less_than(a: [u64; 4], b: [u64; 4]) -> (less: bool)
    ensures
        less == (limbs_value(a@) < limbs_value(b@)),
{
    alloy_primitives::U256::from_limbs(a) < alloy_primitives::U256::from_limbs(b)
}

/// `alloy_primitives::U256::checked_add`: the integer sum if it is below 2^256,
/// `None` otherwise.
#[verifier::external_body]
fn alloy_checked_add(a: [u64; 4], b: [u64; 4]) -> (sum: Option<[u64; 4]>)
    ensures
        sum is Some <==> limbs_value(a@) + limbs_value(b@) < pow256(32),
        sum matches Some(limbs) ==> limbs_value(limbs@) == limbs_value(a@) + limbs_value(b@),
{
    match alloy_primitives::U256::from_limbs(a).checked_add(
        alloy_primitives::U256::from_limbs(b),
    ) {
        Some(word) => Some(word.into_limbs()),
        None => None,
    }
}

/// `alloy_primitives::U256::checked_sub`: the integer difference if it is not
/// negative, `None` otherwise.
#[verifier::external_body]
fn alloy_checked_sub(a: [u64; 4], b: [u64; 4]) -> (difference: Option<[u64; 4]>)
    ensures
        difference is Some <==> limbs_value(a@) >= limbs_value(b@),
        difference matches Some(limbs) ==> limbs_value(limbs@) == limbs_value(a@) - limbs_value(b@),
{
    match alloy_primitives::U256::from_limbs(a).checked_sub(
        alloy_primitives::U256::from_limbs(b),
    ) {
        Some(word) => Some(word.into_limbs()),
        None => None,
    }
}

/// `alloy_primitives::U256::to_be_bytes::<32>`: the 32 bytes of the number, most
/// significant first.
#[verifier::external_body]
fn alloy_to_be_bytes(a: [u64; 4]) -> (out: [u8; 32])
    ensures
        out@ == be_bytes(limbs_value(a@), 32),
{
    alloy_primitives::U256::from_limbs(a).to_be_bytes::<32>()
}

/// A word is the number that its four digits spell to the base 2^64, and lies below
/// 2^256.
pub proof fn law_word_value(w: PqU256)
    ensures
        w@ == w.limbs[0] + w.limbs[1] * 0x1_0000_0000_0000_0000 + w.limbs[2]
            * 0x1_0000_0000_0000_0000_0000_0000_0000_0000 + w.limbs[3]
            * 0x1_0000_0000_0000_0000_0000_0000_0000_0000_0000_0000_0000_0000,
        w@
            < 0x1_0000_0000_0000_0000_0000_0000_0000_0000_0000_0000_0000_0000_0000_0000_0000_0000nat,
{
}

} // verus!
