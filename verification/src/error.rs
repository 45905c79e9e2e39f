//! The ways in which the arguments of a run can be wrong.

use vstd::prelude::*;
use vstd::string::*;

verus! {

/// Why the arguments of a run were rejected. Each of these ends the run.
#[derive(Clone, Copy, Debug, PartialEq, Eq)]
pub enum ArgsError {
    /// The address has neither one, three nor four components.
    AddressShape,
    /// A value of the range is not a number in `0..=255`.
    RangeOctet,
    /// The range does not have exactly two values.
    RangeCount,
}

impl ArgsError {
    /// The diagnostic that goes with the error.
    pub open spec fn text(self) -> Seq<char> {
        match self {
            ArgsError::AddressShape => "Demasiados numeros"@,
            ArgsError::RangeOctet => "Debes introducir un rango entre 0-255"@,
            ArgsError::RangeCount => "Se deben introducir 2 valores"@,
        }
    }

    /// The diagnostic that goes with the error.
    pub fn message(&self) -> (r: String)
        ensures
            r@ == self.text(),
    {
        match self {
            ArgsError::AddressShape => String::from_str("Demasiados numeros"),
            ArgsError::RangeOctet => String::from_str("Debes introducir un rango entre 0-255"),
            ArgsError::RangeCount => String::from_str("Se deben introducir 2 valores"),
        }
    }
}

} // verus!
