//! The command-line interface's commands, as plain values.
use vstd::prelude::*;

verus! {

/// The subcommands; with none, the interactive dashboard runs.
#[derive(Debug, Clone, PartialEq)]
pub enum Command {
    /// A full network status snapshot.
    Status,
    /// Each status field as soon as it is ready.
    Stream,
    /// Like `Stream`, re-run on every configuration change and on an
    /// adaptive poll; the intervals are in seconds.
    Watch { interval: u64, degraded_interval: u64 },
    Interfaces,
    Dns,
    Vpn,
    Proxy,
    Wifi,
    Captive,
    Connection,
    Ping { targets: Vec<String> },
    Resolve { domains: Vec<String> },
    Connect { targets: Vec<String>, port: u16 },
    /// The JSON Schema of the `Stream` and `Watch` output.
    Schema,
}

/// The parsed command line.
#[derive(Debug, Clone, PartialEq)]
pub struct Cli {
    pub command: Option<Command>,
}

} // verus!
