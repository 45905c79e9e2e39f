//! The arguments of a run and what they ask for.

use crate::address::{classify, components, Address, AddressView};
use crate::error::ArgsError;
use crate::range::{default_range, parse_range, RangeSpec};
use crate::text::{split, trim};
use vstd::prelude::*;

verus! {

/// The arguments of a run: the address to probe and, optionally, the range
/// of last components to sweep.
#[derive(Debug)]
pub struct Args {
    /// The range as `LO-HI`, such as `1-255`.
    pub range: Option<String>,
    /// A host, a centre or a network, such as `192.168.0.1`, `101` or
    /// `172.17.3`.
    pub address: String,
}

/// What [`Args`] holds, as characters.
pub struct ArgsView {
    pub range: Option<Seq<char>>,
    pub address: Seq<char>,
}

impl View for Args {
    type V = ArgsView;

    open spec fn view(&self) -> ArgsView {
        ArgsView {
            range: match self.range {
                Some(range) => Some(range@),
                None => None,
            },
            address: self.address@,
        }
    }
}

impl ArgsView {
    /// The address that the arguments name; see [`classify`].
    pub open spec fn address(self) -> Result<AddressView, ArgsError> {
        classify(self.address)
    }

    /// The range that the arguments ask for. A range that is given is the
    /// one, whatever the address; see [`parse_range`]. Without one the range
    /// follows from the address, see [`default_range`], and an address of
    /// the wrong shape is the error.
    pub open spec fn range(self) -> Result<RangeSpec, ArgsError> {
        match self.range {
            Some(flag) => parse_range(flag),
            None => match self.address() {
                Ok(address) => Ok(default_range(address)),
                Err(e) => Err(e),
            },
        }
    }
}

impl Args {
    /// Arguments with the given address and range.
    pub fn new(address: String, range: Option<String>) -> (args: Args)
        ensures
            args.address == address,
            args.range == range,
    {
        Args { range, address }
    }

    /// The address that the arguments name; see [`classify`]. It is an
    /// error exactly where the address has a number of components other than
    /// one, three and four.
    pub fn address(&self) -> (r: Result<Address<'_>, ArgsError>)
        ensures
            r matches Ok(address) ==> self@.address() == Ok::<AddressView, ArgsError>(address@)
                && address@.parts() == components(self@.address) && address@.wf(),
            r matches Err(e) ==> self@.address() == Err::<AddressView, ArgsError>(e) && e
                == ArgsError::AddressShape,
            r is Ok <==> components(self@.address).len() == 1 || components(self@.address).len()
                == 3 || components(self@.address).len() == 4,
    {
        let address = split(trim(self.address.as_str()), '.');
        match address.len() {
            1 => Ok(Address::Hotel(address)),
            3 => Ok(Address::Red(address)),
            4 => Ok(Address::IP(address)),
            _ => Err(ArgsError::AddressShape),
        }
    }

    /// The range that the arguments ask for; see [`ArgsView::range`].
    pub fn range(&self) -> (r: Result<RangeSpec, ArgsError>)
        ensures
            r == self@.range(),
    {
        match &self.range {
            Some(range) => RangeSpec::parse(range.as_str()),
            None => match self.address() {
                Ok(address) => Ok(RangeSpec::default_for(&address)),
                Err(e) => Err(e),
            },
        }
    }
}

} // verus!
