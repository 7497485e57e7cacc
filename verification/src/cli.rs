//! What the command line tools can be asked to do.

use vstd::prelude::*;

verus! {

pub const DEFAULT_UDP_PORT: u16 = 3013;

/// A command with its arguments.
pub enum Commands {
    /// Record system audio
    Record(RecordCmd),
    /// Connect to a remote audio server
    Connect(ConnectCmd),
}

#[derive(Clone, Copy, Debug, PartialEq, Eq, Structural)]
pub struct RecordCmd {
    /// The UDP port to record on
    pub port: u16,
    /// Whether to keep the clipboards of the two machines the same
    pub clipboard: bool,
}

#[derive(Clone, Copy, Debug, PartialEq, Eq)]
pub struct ConnectCmd {
    /// The destination UDP port to connect to
    pub dest_port: u16,
    /// The UDP source port to use
    pub src_port: u16,
    /// The destination IP to connect to
    pub ip: [u8; 4],
}

impl Default for RecordCmd {
    fn default() -> (cmd: Self)
        ensures
            cmd == (RecordCmd { port: DEFAULT_UDP_PORT, clipboard: false }),
    {
        RecordCmd { port: DEFAULT_UDP_PORT, clipboard: false }
    }
}

impl ConnectCmd {
    /// Connects to a host on the default ports.
    pub fn to_host(ip: [u8; 4]) -> (cmd: Self)
        ensures
            cmd == (ConnectCmd { dest_port: DEFAULT_UDP_PORT, src_port: DEFAULT_UDP_PORT, ip }),
    {
        ConnectCmd { dest_port: DEFAULT_UDP_PORT, src_port: DEFAULT_UDP_PORT, ip }
    }
}

} // verus!
