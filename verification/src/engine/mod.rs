//! The engine that keeps all tunnels of a user in one place: those the user hosts and those the
//! user is connected to.

use vstd::prelude::*;

use crate::addr;
use crate::addr::{any_addr, SocketAddr};
use crate::engine::client::{ClientState, ClientTunnel, LocalPort};
use crate::engine::host::{HostState, HostTunnel};

pub mod cli;
pub mod client;
pub mod common;
pub mod config;
pub mod host;
pub mod laws;
pub mod net;
pub mod utils;

verus! {

/// ALPN protocol identifier.
pub const ALPN: &'static str = "lan-tun/0.1.0";

/// The unspecified address of a family.
pub fn get_unspecified(ip4: bool) -> (r: SocketAddr)
    ensures
        r == addr::unspecified(ip4),
{
    any_addr(ip4)
}

/// The state of the LanTun application.
/// This tracks both the host and client state,
/// so a user can use other tunnels as well as create their own.
#[derive(Debug)]
pub struct LanTun {
    /// The state of the tunnels hosted by the user.
    pub host: HostState,
    /// The state of the tunnels this user is connected to.
    pub client: ClientState,
}

impl Default for LanTun {
    fn default() -> (r: Self)
        ensures
            r.wf(),
            r.host.tunnels@ == Map::<[u8; 32], HostTunnel>::empty(),
            r.client.tunnels@ == Map::<LocalPort, ClientTunnel>::empty(),
    {
        Self::new()
    }
}

impl LanTun {
    /// Both states are consistent.
    pub open spec fn wf(&self) -> bool {
        self.host.wf() && self.client.wf()
    }

    /// No tunnel yet.
    pub fn new() -> (r: Self)
        ensures
            r.wf(),
            r.host.tunnels@ == Map::<[u8; 32], HostTunnel>::empty(),
            r.client.tunnels@ == Map::<LocalPort, ClientTunnel>::empty(),
    {
        LanTun { host: HostState::new(), client: ClientState::new() }
    }
}

} // verus!
