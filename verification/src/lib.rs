//! The rules of a ping sweep: which addresses a run probes, in which order,
//! with which command, and what it prints of the answers.
//!
//! A run is given an address and, optionally, a range ([`Args`]). The address
//! is a host of four components, a network of three or a centre of one
//! ([`Address`]); the range holds the last components to go through
//! ([`RangeSpec`]). From the two follow the targets of the run
//! ([`Args::targets`]). Each target is probed with one echo request
//! ([`Args::comando_ping`]), and each one that answers is reported on a line
//! of its own ([`ProbeResult::line`], [`report`]).
//!
//! Nothing here runs a command or prints: the caller does, target by target.

#![allow(unused_imports)]

pub mod address;
pub mod cli;
pub mod error;
pub mod octet;
pub mod ping;
pub mod probe;
pub mod range;
pub mod scan;
pub mod text;

pub use address::{Address, AddressView};
pub use cli::{Args, ArgsView};
pub use error::ArgsError;
pub use ping::{PingCommand, PingCommandView, Platform};
pub use probe::{report, ProbeResult, ProbeResultView};
pub use range::RangeSpec;
