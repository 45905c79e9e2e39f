//! The three shapes of an address, told apart by the number of components.

use crate::error::ArgsError;
use crate::text::{join, joined, pieces, trimmed};
use vstd::prelude::*;
use vstd::string::*;

verus! {

/// An address as given on the command line, split at its dots. The
/// components are kept as text: none is checked to be a number.
#[derive(Debug, PartialEq, Eq)]
pub enum Address<'a> {
    /// A complete address of four components, such as `192.168.0.1`: one host.
    IP(Vec<&'a str>),
    /// A network of three components, such as `172.17.3`: its hosts
    /// are found by appending a last component.
    Red(Vec<&'a str>),
    /// A centre of one component, such as `101`: it stands for the network
    /// `192.168.101`.
    Hotel(Vec<&'a str>),
}

/// What an [`Address`] holds, as characters.
pub enum AddressView {
    IP(Seq<Seq<char>>),
    Red(Seq<Seq<char>>),
    Hotel(Seq<Seq<char>>),
}

impl AddressView {
    /// The components of the address.
    pub open spec fn parts(self) -> Seq<Seq<char>> {
        match self {
            AddressView::IP(parts) => parts,
            AddressView::Red(parts) => parts,
            AddressView::Hotel(parts) => parts,
        }
    }

    /// Whether the address has as many components as its shape asks for.
    pub open spec fn wf(self) -> bool {
        match self {
            AddressView::IP(parts) => parts.len() == 4,
            AddressView::Red(parts) => parts.len() == 3,
            AddressView::Hotel(parts) => parts.len() == 1,
        }
    }

    /// The address written out: the components joined by dots, and before
    /// those of a centre the network `192.168.` that it lies in.
    pub open spec fn text(self) -> Seq<char> {
        match self {
            AddressView::IP(parts) => joined(parts, "."@),
            AddressView::Red(parts) => joined(parts, "."@),
            AddressView::Hotel(parts) => "192.168."@ + joined(parts, "."@),
        }
    }
}

impl<'a> View for Address<'a> {
    type V = AddressView;

    open spec fn view(&self) -> AddressView {
        match self {
            Address::IP(parts) => AddressView::IP(parts.deep_view()),
            Address::Red(parts) => AddressView::Red(parts.deep_view()),
            Address::Hotel(parts) => AddressView::Hotel(parts.deep_view()),
        }
    }
}

/// The components of the text `raw`: the white space around `raw` is
/// dropped and the rest is split at each dot, empty components included.
pub open spec fn components(raw: Seq<char>) -> Seq<Seq<char>> {
    pieces(trimmed(raw), '.')
}

/// The address that the text `raw` stands for. One component makes a
/// centre, three a network and four a host; any other number is an error.
pub open spec fn classify(raw: Seq<char>) -> Result<AddressView, ArgsError> {
    let parts = components(raw);
    if parts.len() == 1 {
        Ok(AddressView::Hotel(parts))
    } else if parts.len() == 3 {
        Ok(AddressView::Red(parts))
    } else if parts.len() == 4 {
        Ok(AddressView::IP(parts))
    } else {
        Err(ArgsError::AddressShape)
    }
}

impl<'a> Address<'a> {
    /// The address written out; see [`AddressView::text`].
    pub fn to_string(&self) -> (r: String)
        ensures
            r@ == self@.text(),
    {
        match self {
            Address::IP(ip_vec) => join(ip_vec, "."),
            Address::Red(red_vec) => join(red_vec, "."),
            Address::Hotel(hotel_vec) => {
                let centre = join(hotel_vec, ".");
                String::from_str("192.168.").concat(centre.as_str())
            },
        }
    }
}

} // verus!
