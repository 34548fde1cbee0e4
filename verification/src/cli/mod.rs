//! The command line program: what is asked of it, and what it does.

use vstd::prelude::*;

use crate::addr::SocketAddr;
use crate::tunnel::TunnelProtocol;

pub mod config;
pub mod laws;
pub mod run;
pub mod run_all;

verus! {

/// How much is logged.
#[derive(Debug, Clone, Copy, PartialEq, Eq, Structural)]
pub enum LogLevel {
    Error,
    Warn,
    Info,
    Debug,
    Trace,
}

/// The config file that is used unless another one is asked for: `lantun/lantun.toml` in the user's
/// configuration directory. `separator` stands between the parts of a path.
pub fn default_config_file(config_dir: &str, separator: &str) -> (r: String)
    ensures
        r@ == config_dir@ + separator@ + "lantun"@ + separator@ + "lantun.toml"@,
{
    String::from_str(config_dir).concat(separator).concat("lantun").concat(separator).concat(
        "lantun.toml",
    )
}

/// What the program is asked to do.
#[derive(Debug)]
pub struct Args {
    /// Log level (overrides RUST_LOG when set).
    pub log_level: Option<LogLevel>,
    /// Inline host tunnels as a JSON array. When set, the config file is not read or
    /// created. Cannot be combined with subcommands.
    pub host_tunnels: Option<String>,
    /// Inline client tunnels as a JSON array. When set, the config file is not read or
    /// created. Cannot be combined with subcommands.
    pub client_tunnels: Option<String>,
    pub action: Option<Action>,
}

/// A subcommand.
#[derive(Debug)]
pub enum Action {
    /// Create a new host tunnel.
    AddHost { local: SocketAddr, protocol: TunnelProtocol, name: String },
    /// Create a new client tunnel.
    AddClient { host_key: String, local: SocketAddr, protocol: TunnelProtocol, name: String },
    /// List all configured tunnels.
    List,
    /// Remove a tunnel by name.
    Remove { name: String },
    /// Enable a tunnel (only enabled tunnels run when no subcommand is given).
    Enable { name: String },
    /// Disable a tunnel.
    Disable { name: String },
}

} // verus!
