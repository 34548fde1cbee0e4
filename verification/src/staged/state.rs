//! The tunnels of a configuration, and changes to it.

use vstd::prelude::*;

use crate::addr::SocketAddr;
use crate::key::{PublicKey, SecretKey};
use crate::staged::client::ClientTunnel;
use crate::staged::common::Protocol;
use crate::staged::config::{ClientTunnelConfig, HostTunnelConfig, LantunConfig};
use crate::staged::host::HostTunnel;

verus! {

/// The tunnels of a configuration: those to start, in this order and hosts first, and the others.
#[derive(Debug)]
pub struct State {
    pub active_host_tunnels: Vec<HostTunnel>,
    pub inactive_host_tunnels: Vec<HostTunnel>,
    pub active_client_tunnels: Vec<ClientTunnel>,
    pub inactive_client_tunnels: Vec<ClientTunnel>,
}

/// The host tunnels of the entries that are enabled, or of those that are not.
pub open spec fn hosts_with(s: Seq<HostTunnelConfig>, enabled: bool) -> Seq<HostTunnel>
    decreases s.len(),
{
    if s.len() == 0 {
        seq![]
    } else if s.last().enabled == enabled {
        hosts_with(s.drop_last(), enabled).push(HostTunnel::described(s.last()))
    } else {
        hosts_with(s.drop_last(), enabled)
    }
}

/// The client tunnels of the entries that are enabled, or of those that are not.
pub open spec fn clients_with(s: Seq<ClientTunnelConfig>, enabled: bool) -> Seq<ClientTunnel>
    decreases s.len(),
{
    if s.len() == 0 {
        seq![]
    } else if s.last().enabled == enabled {
        clients_with(s.drop_last(), enabled).push(ClientTunnel::described(s.last()))
    } else {
        clients_with(s.drop_last(), enabled)
    }
}

impl State {
    /// The tunnels of a configuration.
    pub fn from_config(config: &LantunConfig) -> (r: Self)
        ensures
            r.active_host_tunnels@ == hosts_with(config.host_tunnels@, true),
            r.inactive_host_tunnels@ == hosts_with(config.host_tunnels@, false),
            r.active_client_tunnels@ == clients_with(config.client_tunnels@, true),
            r.inactive_client_tunnels@ == clients_with(config.client_tunnels@, false),
    {
        let mut active_host_tunnels: Vec<HostTunnel> = Vec::new();
        let mut inactive_host_tunnels: Vec<HostTunnel> = Vec::new();
        let mut active_client_tunnels: Vec<ClientTunnel> = Vec::new();
        let mut inactive_client_tunnels: Vec<ClientTunnel> = Vec::new();
        let mut i: usize = 0;
        while i < config.host_tunnels.len()
            invariant
                i <= config.host_tunnels@.len(),
                active_host_tunnels@ == hosts_with(config.host_tunnels@.take(i as int), true),
                inactive_host_tunnels@ == hosts_with(config.host_tunnels@.take(i as int), false),
            decreases config.host_tunnels@.len() - i,
        {
            let tunnel: HostTunnel = HostTunnel::from_config(&config.host_tunnels[i]);
            proof {
                let next = config.host_tunnels@.take(i + 1);
                assert(next.drop_last() =~= config.host_tunnels@.take(i as int));
                assert(next.last() == config.host_tunnels@[i as int]);
            }
            if config.host_tunnels[i].enabled {
                active_host_tunnels.push(tunnel);
            } else {
                inactive_host_tunnels.push(tunnel);
            }
            i = i + 1;
        }
        assert(config.host_tunnels@.take(i as int) =~= config.host_tunnels@);
        let mut k: usize = 0;
        while k < config.client_tunnels.len()
            invariant
                k <= config.client_tunnels@.len(),
                active_client_tunnels@ == clients_with(config.client_tunnels@.take(k as int), true),
                inactive_client_tunnels@ == clients_with(
                    config.client_tunnels@.take(k as int),
                    false,
                ),
            decreases config.client_tunnels@.len() - k,
        {
            let tunnel: ClientTunnel = ClientTunnel::from_config(&config.client_tunnels[k]);
            proof {
                let next = config.client_tunnels@.take(k + 1);
                assert(next.drop_last() =~= config.client_tunnels@.take(k as int));
                assert(next.last() == config.client_tunnels@[k as int]);
            }
            if config.client_tunnels[k].enabled {
                active_client_tunnels.push(tunnel);
            } else {
                inactive_client_tunnels.push(tunnel);
            }
            k = k + 1;
        }
        assert(config.client_tunnels@.take(k as int) =~= config.client_tunnels@);
        State {
            active_host_tunnels,
            inactive_host_tunnels,
            active_client_tunnels,
            inactive_client_tunnels,
        }
    }
}

/// Every configured host tunnel is either to start or not.
pub proof fn lemma_all_hosts_accounted(s: Seq<HostTunnelConfig>)
    ensures
        hosts_with(s, true).len() + hosts_with(s, false).len() == s.len(),
    decreases s.len(),
{
    if s.len() > 0 {
        lemma_all_hosts_accounted(s.drop_last());
    }
}

/// Every configured client tunnel is either to start or not.
pub proof fn lemma_all_clients_accounted(s: Seq<ClientTunnelConfig>)
    ensures
        clients_with(s, true).len() + clients_with(s, false).len() == s.len(),
    decreases s.len(),
{
    if s.len() > 0 {
        lemma_all_clients_accounted(s.drop_last());
    }
}

/// Adds a host tunnel, enabled, with the given secret key.
pub fn create_host_tunnel(
    config: &mut LantunConfig,
    name: Option<String>,
    secret: SecretKey,
    local: SocketAddr,
    protocol: Protocol,
)
    ensures
        final(config).client_tunnels@ == old(config).client_tunnels@,
        final(config).host_tunnels@ == old(config).host_tunnels@.push(
            HostTunnelConfig { name, secret, local_addr: local, proto: protocol, enabled: true },
        ),
{
    config.host_tunnels.push(
        HostTunnelConfig { name, secret, local_addr: local, proto: protocol, enabled: true },
    );
}

/// Adds a client tunnel, enabled.
pub fn add_client_tunnel(
    config: &mut LantunConfig,
    name: Option<String>,
    public_key: PublicKey,
    local: SocketAddr,
    protocol: Protocol,
)
    ensures
        final(config).host_tunnels@ == old(config).host_tunnels@,
        final(config).client_tunnels@ == old(config).client_tunnels@.push(
            ClientTunnelConfig {
                name,
                host_public: public_key,
                local_addr: local,
                proto: protocol,
                enabled: true,
            },
        ),
{
    config.client_tunnels.push(
        ClientTunnelConfig {
            name,
            host_public: public_key,
            local_addr: local,
            proto: protocol,
            enabled: true,
        },
    );
}

} // verus!
