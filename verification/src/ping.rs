//! The command that probes one address with the system's `ping`.

use crate::cli::Args;
use vstd::prelude::*;
use vstd::string::*;

verus! {

/// The kind of system that runs the probe. The two differ in their shell
/// and in the options that their `ping` takes.
#[derive(Clone, Copy, Debug, PartialEq, Eq)]
pub enum Platform {
    Windows,
    Linux,
}

/// A command to run: a program and its arguments.
#[derive(Debug, PartialEq, Eq)]
pub struct PingCommand {
    pub program: String,
    pub args: Vec<String>,
}

/// What a [`PingCommand`] holds, as characters.
pub struct PingCommandView {
    pub program: Seq<char>,
    pub args: Seq<Seq<char>>,
}

impl View for PingCommand {
    type V = PingCommandView;

    open spec fn view(&self) -> PingCommandView {
        PingCommandView { program: self.program@, args: self.args.deep_view() }
    }
}

/// The command that sends one echo request to `ip`. On Windows it is
/// `cmd /C` with `ping -n 1 -w 10` and the address, which waits 10 ms for
/// the answer; on Linux it is `sh -c` with the one argument
/// `ping -c 1 <ip>`.
pub open spec fn ping_command(ip: Seq<char>, platform: Platform) -> PingCommandView {
    match platform {
        Platform::Windows => PingCommandView {
            program: "cmd"@,
            args: seq!["/C"@, "ping -n 1 -w 10"@, ip],
        },
        Platform::Linux => PingCommandView { program: "sh"@, args: seq!["-c"@, "ping -c 1 "@ + ip] },
    }
}

impl Args {
    /// The command that sends one echo request to `ip`; see
    /// [`ping_command`].
    pub fn comando_ping(ip: String, platform: Platform) -> (command: PingCommand)
        ensures
            command@ == ping_command(ip@, platform),
    {
        let mut args: Vec<String> = Vec::new();
        match platform {
            Platform::Windows => {
                args.push(String::from_str("/C"));
                args.push(String::from_str("ping -n 1 -w 10"));
                args.push(ip);
                assert(args.deep_view() == seq!["/C"@, "ping -n 1 -w 10"@, ip@]);
                PingCommand { program: String::from_str("cmd"), args }
            },
            Platform::Linux => {
                args.push(String::from_str("-c"));
                args.push(String::from_str("ping -c 1 ").concat(ip.as_str()));
                assert(args.deep_view() == seq!["-c"@, "ping -c 1 "@ + ip@]);
                PingCommand { program: String::from_str("sh"), args }
            },
        }
    }
}

} // verus!
