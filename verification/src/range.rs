//! The range of last components that a sweep goes through.

use crate::address::{Address, AddressView};
use crate::error::ArgsError;
use crate::octet::{
    decimal, lemma_decimal_is_digits, lemma_octet_value_of_decimal, octet_value, parse_octet,
};
use crate::text::{lemma_pieces_of_two, lemma_trimmed_is_all, pieces, split, trim, trimmed};
use vstd::prelude::*;

verus! {

/// The last components `lo..=hi` of a sweep, both ends included. With
/// `lo > hi` the range is empty.
#[derive(Clone, Copy, Debug, PartialEq, Eq)]
pub struct RangeSpec {
    pub lo: u8,
    pub hi: u8,
}

/// The range that an address is swept over when none is asked for: a host
/// stands alone, a network is swept from 1 and a centre from 101, both up to
/// 255.
pub open spec fn default_range(address: AddressView) -> RangeSpec {
    match address {
        AddressView::IP(_) => RangeSpec { lo: 1, hi: 1 },
        AddressView::Red(_) => RangeSpec { lo: 1, hi: 255 },
        AddressView::Hotel(_) => RangeSpec { lo: 101, hi: 255 },
    }
}

/// The range that the text `flag` asks for. The white space around `flag` is
/// dropped and the rest is split at each `-`. Every piece has to write an
/// octet, or the error is [`ArgsError::RangeOctet`]; then there have to be
/// exactly two, or the error is [`ArgsError::RangeCount`]. The first is
/// `lo`, the second `hi`.
pub open spec fn parse_range(flag: Seq<char>) -> Result<RangeSpec, ArgsError> {
    let parts = pieces(trimmed(flag), '-');
    if exists|i: int| 0 <= i < parts.len() && octet_value(#[trigger] parts[i]) is None {
        Err(ArgsError::RangeOctet)
    } else if parts.len() != 2 {
        Err(ArgsError::RangeCount)
    } else {
        Ok(RangeSpec { lo: octet_value(parts[0]).unwrap(), hi: octet_value(parts[1]).unwrap() })
    }
}

impl RangeSpec {
    /// How many values the range holds.
    pub open spec fn count(self) -> nat {
        if self.lo <= self.hi {
            (self.hi - self.lo + 1) as nat
        } else {
            0
        }
    }

    /// The values of the range in ascending order.
    pub open spec fn octets(self) -> Seq<u8> {
        Seq::new(self.count(), |k: int| (self.lo + k) as u8)
    }

    /// The range that an address is swept over when none is asked for; see
    /// [`default_range`].
    pub fn default_for(address: &Address) -> (r: RangeSpec)
        ensures
            r == default_range(address@),
    {
        match address {
            Address::IP(_) => RangeSpec { lo: 1, hi: 1 },
            Address::Red(_) => RangeSpec { lo: 1, hi: 255 },
            Address::Hotel(_) => RangeSpec { lo: 101, hi: 255 },
        }
    }

    /// The range that the text `flag` asks for; see [`parse_range`].
    pub fn parse(flag: &str) -> (r: Result<RangeSpec, ArgsError>)
        ensures
            r == parse_range(flag@),
    {
        let parts = split(trim(flag), '-');
        let ghost wanted = pieces(trimmed(flag@), '-');
        let mut range: Vec<u8> = Vec::new();
        let mut i: usize = 0;
        while i < parts.len()
            invariant
                i <= parts.len(),
                wanted == pieces(trimmed(flag@), '-'),
                parts.deep_view() == wanted,
                range.len() == i,
                forall|k: int| 0 <= k < i ==> octet_value(#[trigger] wanted[k]) == Some(range[k]),
            decreases parts.len() - i,
        {
            match parse_octet(parts[i]) {
                Some(n) => range.push(n),
                None => {
                    assert(octet_value(wanted[i as int]) is None);
                    return Err(ArgsError::RangeOctet);
                },
            }
            i += 1;
        }
        if range.len() != 2 {
            return Err(ArgsError::RangeCount);
        }
        Ok(RangeSpec { lo: range[0], hi: range[1] })
    }
}

/// The flag `<lo>-<hi>`, with both numbers in decimal, asks for the range
/// from `lo` to `hi`.
pub proof fn lemma_flag_of_bounds(lo: u8, hi: u8)
    ensures
        parse_range(decimal(lo as nat) + seq!['-'] + decimal(hi as nat)) is Ok,
        parse_range(decimal(lo as nat) + seq!['-'] + decimal(hi as nat)).unwrap().lo == lo,
        parse_range(decimal(lo as nat) + seq!['-'] + decimal(hi as nat)).unwrap().hi == hi,
{
    let a = decimal(lo as nat);
    let b = decimal(hi as nat);
    let flag = a + seq!['-'] + b;
    lemma_decimal_is_digits(lo as nat);
    lemma_decimal_is_digits(hi as nat);
    lemma_trimmed_is_all(flag);
    lemma_pieces_of_two(a, b, '-');
    lemma_octet_value_of_decimal(lo);
    lemma_octet_value_of_decimal(hi);
}

} // verus!
