//! The configuration that is handed to the bitcoin adapter.

use crate::text::views;
use vstd::prelude::*;
use vstd::string::StringExecFns;

verus! {

/// The address on which a local bitcoin node in regression test mode listens.
pub const BITCOIND_REGTEST_DEFAULT_ADDRESS: &'static str = "127.0.0.1:18444";

/// The number of seconds after which the adapter becomes idle. The adapter's
/// own default of one hour makes it fail on some platforms when it is started
/// shortly after the machine.
pub const FORCED_IDLE_SECONDS: u64 = 5;

/// The nodes to connect to where the manifest names none: the local node in
/// regression test mode, written as `host:port`.
pub fn default_nodes() -> (r: Vec<String>)
    ensures
        views(r@) == seq![BITCOIND_REGTEST_DEFAULT_ADDRESS@],
{
    let mut nodes: Vec<String> = Vec::new();
    nodes.push(String::from_str(BITCOIND_REGTEST_DEFAULT_ADDRESS));
    proof {
        assert(views(nodes@) =~= seq![BITCOIND_REGTEST_DEFAULT_ADDRESS@]);
    }
    nodes
}

/// The source of the unix domain socket to be used for inter-process
/// communication.
#[derive(Clone, Debug, PartialEq, Eq)]
pub enum IncomingSource {
    /// The socket that systemd created.
    Systemd,
    /// The socket at this path.
    Path(String),
}

impl Default for IncomingSource {
    fn default() -> (r: Self)
        ensures
            r == IncomingSource::Systemd,
    {
        IncomingSource::Systemd
    }
}

/// The configuration options of the adapter.
#[derive(Clone, Debug, PartialEq, Eq)]
pub struct Config {
    /// The type of bitcoin network to talk to, such as `mainnet` or `regtest`.
    pub network: String,
    /// Addresses of nodes to connect to, each written as `host:port`.
    pub nodes: Vec<String>,
    /// The number of seconds that need to pass for the adapter to become idle.
    pub idle_seconds: Option<u64>,
    /// Which unix domain socket serves incoming requests.
    pub incoming_source: IncomingSource,
}

impl Config {
    /// The configuration for the regression test network, with these nodes
    /// and the socket at `uds_path`.
    pub fn new(nodes: Vec<String>, uds_path: String) -> (r: Config)
        ensures
            r.network@ == "regtest"@,
            r.nodes == nodes,
            r.idle_seconds == Some(FORCED_IDLE_SECONDS),
            r.incoming_source == IncomingSource::Path(uds_path),
    {
        Config {
            network: String::from_str("regtest"),
            nodes,
            idle_seconds: Some(FORCED_IDLE_SECONDS),
            incoming_source: IncomingSource::Path(uds_path),
        }
    }

    /// The path of the socket, unless it is the one that systemd created.
    pub fn get_socket_path(&self) -> (r: Option<String>)
        ensures
            match self.incoming_source {
                IncomingSource::Systemd => r is None,
                IncomingSource::Path(path) => r matches Some(p) && p@ == path@,
            },
    {
        match &self.incoming_source {
            IncomingSource::Systemd => None,
            IncomingSource::Path(path) => Some(path.clone()),
        }
    }
}

} // verus!
