//! Command-line settings of the engine process.
use vstd::prelude::*;
use vstd::string::StringExecFns;

verus! {

/// All settings of the engine process.
pub struct Args {
    /// Network interface to listen on: "any", "loopback" or an IPv4 address.
    pub interface: String,
    /// Multicast group to join (224.0.0.0 – 239.255.255.255).
    pub multicast_group: String,
    /// UDP port to listen on.
    pub port: u16,
    /// Receive buffer size in bytes.
    pub buf_size: usize,
    /// Frames longer than this many bytes are dropped.
    pub max_msg_size: usize,
    /// Seconds to wait before reconnecting after a socket error.
    pub reconnect_delay_secs: u64,
    /// Port of the metrics HTTP server.
    pub metrics_port: u16,
}

impl Default for Args {
    /// The settings used when no flag is given.
    fn default() -> (r: Self)
        ensures
            r.interface@ == "any"@,
            r.multicast_group@ == "239.1.1.1"@,
            r.port == 9000,
            r.buf_size == 4096,
            r.max_msg_size == 1024,
            r.reconnect_delay_secs == 5,
            r.metrics_port == 9001,
    {
        Args {
            interface: String::from_str("any"),
            multicast_group: String::from_str("239.1.1.1"),
            port: 9000,
            buf_size: 4096,
            max_msg_size: 1024,
            reconnect_delay_secs: 5,
            metrics_port: 9001,
        }
    }
}

} // verus!
