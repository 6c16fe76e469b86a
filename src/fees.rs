//! Launchpad fee schedule, its validity rule, and its byte encoding.

use vstd::prelude::*;
use crate::bytes::append;

verus! {

/// A fee rate: `numerator / denominator` of an amount.
#[derive(Clone, Copy, Debug, PartialEq, Eq, Structural)]
pub struct Fee {
    pub numerator: u64,
    pub denominator: u64,
}

/// The fees the launchpad charges.
#[derive(Clone, Copy, Debug, PartialEq, Eq, Structural)]
pub struct Fees {
    pub new_auction: Fee,
    pub auction_update: Fee,
    pub invalid_bid: Fee,
    pub trade: Fee,
}

/// Launchpad-wide configuration governed by administrative operations.
#[derive(Clone, Copy, Debug, PartialEq, Eq, Structural)]
pub struct Launchpad {
    pub fees: Fees,
}

impl Fee {
    /// A fee never exceeds the whole amount.
    pub open spec fn spec_is_valid(self) -> bool {
        self.numerator <= self.denominator
    }

    pub fn is_valid(&self) -> (r: bool)
        ensures
            r == self.spec_is_valid(),
    {
        self.numerator <= self.denominator
    }
}

impl Fees {
    pub open spec fn spec_is_valid(self) -> bool {
        &&& self.new_auction.spec_is_valid()
        &&& self.auction_update.spec_is_valid()
        &&& self.invalid_bid.spec_is_valid()
        &&& self.trade.spec_is_valid()
    }
}

impl Launchpad {
    pub open spec fn spec_validate(self) -> bool {
        self.fees.spec_is_valid()
    }

    /// `true` when the configuration may be persisted.
    pub fn validate(&self) -> (r: bool)
        ensures
            r == self.spec_validate(),
    {
        self.fees.new_auction.is_valid() && self.fees.auction_update.is_valid()
            && self.fees.invalid_bid.is_valid() && self.fees.trade.is_valid()
    }
}

/// The eight bytes of `x`, least significant first.
pub open spec fn le_bytes(x: u64) -> Seq<u8> {
    seq![
        x as u8,
        (x >> 8u64) as u8,
        (x >> 16u64) as u8,
        (x >> 24u64) as u8,
        (x >> 32u64) as u8,
        (x >> 40u64) as u8,
        (x >> 48u64) as u8,
        (x >> 56u64) as u8,
    ]
}

/// Relies on `anchor_lang::AnchorSerialize` (borsh 0.10) for `u64`: its
/// `try_to_vec` writes `to_le_bytes` of the value into a fresh `Vec`, a writer
/// that never fails, and returns it.
#[verifier::external_body]
fn serialize_u64(x: u64) -> (r: Option<Vec<u8>>)
    ensures
        r is Some,
        r matches Some(v) ==> v@ == le_bytes(x),
{
    anchor_lang::AnchorSerialize::try_to_vec(&x).ok()
}

/// Encoding of a fee: numerator, then denominator.
pub open spec fn fee_bytes(f: Fee) -> Seq<u8> {
    le_bytes(f.numerator) + le_bytes(f.denominator)
}

/// Appends the encoding of `f` to `out`.
pub fn write_fee(f: &Fee, out: &mut Vec<u8>)
    ensures
        final(out)@ == old(out)@ + fee_bytes(*f),
{
    let n = match serialize_u64(f.numerator) {
        Some(v) => v,
        None => return,
    };
    let d = match serialize_u64(f.denominator) {
        Some(v) => v,
        None => return,
    };
    let ghost start = out@;
    append(out, &n);
    append(out, &d);
    assert(out@ =~= start + (n@ + d@));
}

} // verus!
