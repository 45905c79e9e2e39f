//! The targets of a run, in the order in which they are probed.

use crate::address::{classify, components, Address, AddressView};
use crate::cli::{Args, ArgsView};
use crate::error::ArgsError;
use crate::octet::{decimal, octet_text};
use crate::range::{lemma_flag_of_bounds, parse_range, RangeSpec};
use crate::text::{lemma_joined_pieces, lemma_pieces_hold_no_separator, trimmed};
use vstd::prelude::*;
use vstd::string::*;

verus! {

/// The host of a network or centre whose last component is `octet`.
pub open spec fn host_at(address: AddressView, octet: u8) -> Seq<char> {
    address.text() + "."@ + decimal(octet as nat)
}

/// The targets of an address. A host is its own and only target, whatever
/// the range. A network or a centre has one target for each value of the
/// range, in ascending order.
pub open spec fn sweep(address: AddressView, range: RangeSpec) -> Seq<Seq<char>> {
    match address {
        AddressView::IP(_) => seq![address.text()],
        _ => range.octets().map_values(|octet: u8| host_at(address, octet)),
    }
}

impl ArgsView {
    /// The targets that the arguments ask to probe, in probe order. The
    /// range is looked at first, so of a wrong range and a wrong address the
    /// range is the one reported.
    pub open spec fn targets(self) -> Result<Seq<Seq<char>>, ArgsError> {
        match self.range() {
            Err(e) => Err(e),
            Ok(range) => match self.address() {
                Err(e) => Err(e),
                Ok(address) => Ok(sweep(address, range)),
            },
        }
    }
}

impl Args {
    /// The targets that the arguments ask to probe, in probe order; see
    /// [`ArgsView::targets`].
    pub fn targets(&self) -> (r: Result<Vec<String>, ArgsError>)
        ensures
            r matches Ok(targets) ==> self@.targets() == Ok::<Seq<Seq<char>>, ArgsError>(
                targets.deep_view(),
            ),
            r matches Err(e) ==> self@.targets() == Err::<Seq<Seq<char>>, ArgsError>(e),
    {
        let range = match self.range() {
            Ok(range) => range,
            Err(e) => {
                return Err(e);
            },
        };
        let address = match self.address() {
            Ok(address) => address,
            Err(e) => {
                return Err(e);
            },
        };
        let mut targets: Vec<String> = Vec::new();
        match address {
            Address::IP(_) => {
                targets.push(address.to_string());
                assert(targets.deep_view() == sweep(address@, range));
            },
            _ => {
                let base = address.to_string();
                let mut i: u16 = range.lo as u16;
                while i <= range.hi as u16
                    invariant
                        !(address@ is IP),
                        base@ == address@.text(),
                        range.lo <= i,
                        i <= range.hi + 1 || i == range.lo,
                        targets.deep_view() == sweep(address@, range).take(i - range.lo),
                    decreases range.hi + 1 - i,
                {
                    let ghost done = targets.deep_view();
                    let octet = octet_text(i as u8);
                    let target = base.clone().concat(".").concat(octet.as_str());
                    targets.push(target);
                    assert(targets.deep_view() == done.push(host_at(address@, i as u8)));
                    i += 1;
                }
            },
        }
        Ok(targets)
    }
}

/// Written out, a host or a network is the text it was read from, without
/// the white space around it; a centre has `192.168.` before that.
pub proof fn lemma_text_of_classified(raw: Seq<char>)
    ensures
        classify(raw) matches Ok(address) ==> (address is Hotel ==> address.text() == "192.168."@
            + trimmed(raw)) && (!(address is Hotel) ==> address.text() == trimmed(raw)),
{
    reveal_strlit(".");
    assert("."@ == seq!['.']);
    lemma_joined_pieces(trimmed(raw), '.');
}

/// Without a range, an address of one component is swept over the 155 hosts
/// `192.168.<c>.101` to `192.168.<c>.255`, in ascending order. The component
/// `<c>` is the address as given, without the white space around it, and
/// holds no dot.
pub proof fn lemma_centre_default_targets(args: ArgsView)
    requires
        components(args.address).len() == 1,
        args.range is None,
    ensures
        args.targets() is Ok,
        args.targets().unwrap().len() == 155,
        forall|k: int|
            0 <= k < 155 ==> #[trigger] args.targets().unwrap()[k] == "192.168."@ + trimmed(
                args.address,
            ) + "."@ + decimal((101 + k) as nat),
        !trimmed(args.address).contains('.'),
{
    lemma_text_of_classified(args.address);
    lemma_joined_pieces(trimmed(args.address), '.');
    lemma_pieces_hold_no_separator(trimmed(args.address), '.');
}

/// Without a range, an address of three components is swept over its 255
/// hosts `<a>.<b>.<c>.1` to `<a>.<b>.<c>.255`, in ascending order.
pub proof fn lemma_network_default_targets(args: ArgsView)
    requires
        components(args.address).len() == 3,
        args.range is None,
    ensures
        args.targets() is Ok,
        args.targets().unwrap().len() == 255,
        forall|k: int|
            0 <= k < 255 ==> #[trigger] args.targets().unwrap()[k] == trimmed(args.address) + "."@
                + decimal((1 + k) as nat),
{
    lemma_text_of_classified(args.address);
}

/// Without a range, an address of four components is the one target.
pub proof fn lemma_host_default_target(args: ArgsView)
    requires
        components(args.address).len() == 4,
        args.range is None,
    ensures
        args.targets() == Ok::<Seq<Seq<char>>, ArgsError>(seq![trimmed(args.address)]),
{
    lemma_text_of_classified(args.address);
}

/// A range given with an address of four components changes nothing: the
/// address is still the one target.
pub proof fn lemma_host_ignores_range(args: ArgsView)
    requires
        components(args.address).len() == 4,
        args.range() is Ok,
    ensures
        args.targets() == Ok::<Seq<Seq<char>>, ArgsError>(seq![trimmed(args.address)]),
{
    lemma_text_of_classified(args.address);
}

/// A range `lo-hi` given with an address of one or three components makes
/// one target for each of its values: `hi - lo + 1` where `lo <= hi`, none
/// where `lo > hi`. The targets are the hosts `lo` to `hi` in ascending
/// order.
pub proof fn lemma_given_range_targets(args: ArgsView, range: RangeSpec)
    requires
        components(args.address).len() == 1 || components(args.address).len() == 3,
        args.range is Some,
        parse_range(args.range.unwrap()) == Ok::<RangeSpec, ArgsError>(range),
    ensures
        args.targets() is Ok,
        range.lo <= range.hi ==> args.targets().unwrap().len() == range.hi - range.lo + 1,
        range.lo > range.hi ==> args.targets().unwrap().len() == 0,
        forall|k: int|
            0 <= k < args.targets().unwrap().len() ==> #[trigger] args.targets().unwrap()[k]
                == host_at(args.address().unwrap(), (range.lo + k) as u8),
{
}

/// The range written `<lo>-<hi>`, given with an address of one or three
/// components, makes `hi - lo + 1` targets where `lo <= hi` and none where
/// `lo > hi`.
pub proof fn lemma_written_range_targets(args: ArgsView, lo: u8, hi: u8)
    requires
        components(args.address).len() == 1 || components(args.address).len() == 3,
        args.range == Some(decimal(lo as nat) + seq!['-'] + decimal(hi as nat)),
    ensures
        args.targets() is Ok,
        lo <= hi ==> args.targets().unwrap().len() == hi - lo + 1,
        lo > hi ==> args.targets().unwrap().len() == 0,
{
    lemma_flag_of_bounds(lo, hi);
    lemma_given_range_targets(args, RangeSpec { lo, hi });
}

/// An address with a number of components other than one, three and four is
/// an error, with or without a range.
pub proof fn lemma_wrong_shape_is_error(args: ArgsView)
    requires
        components(args.address).len() != 1,
        components(args.address).len() != 3,
        components(args.address).len() != 4,
    ensures
        args.address() == Err::<AddressView, ArgsError>(ArgsError::AddressShape),
        args.targets() is Err,
        args.range is None ==> args.range() == Err::<RangeSpec, ArgsError>(
            ArgsError::AddressShape,
        ),
        args.range() is Ok ==> args.targets() == Err::<Seq<Seq<char>>, ArgsError>(
            ArgsError::AddressShape,
        ),
{
}

} // verus!
