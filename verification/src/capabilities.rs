//! The host's effective interaction capabilities: which adapters a run may
//! use once the network policy and listener flag are applied, with the
//! reasons anything was disabled.

use vstd::prelude::*;
use crate::config::InteractionMode;
use crate::interaction::{
    adapters_for_mode, spec_adapters_for_mode, InteractionAdapterKind, InteractionPolicy,
};
use crate::network::NetworkPolicy;
use vstd::string::StringExecFns;

verus! {

/// What the host can do for interaction under the current policy.
#[derive(Debug, Clone)]
pub struct HostCapabilities {
    pub adapters: Vec<InteractionAdapterKind>,
    pub no_listeners: bool,
    pub offline_only: bool,
    pub disabled_reasons: Vec<String>,
}

/// The effective interaction policy a network policy and listener flag
/// induce: listeners need the flag, the network, and not-offline.
pub open spec fn spec_effective_policy(
    allow_listeners: bool,
    allow_network: bool,
    offline_only: bool,
    allowlist_configured: bool,
) -> InteractionPolicy {
    let effective_allow_network = allow_network && !offline_only;
    InteractionPolicy {
        allow_listeners: allow_listeners && !offline_only && effective_allow_network,
        allow_network: effective_allow_network,
        offline_only: offline_only,
        allowlist_configured: allowlist_configured,
    }
}

/// Computes the host's interaction capabilities for a mode under the
/// network policy: the adapters the mode may use, whether listener
/// transports are off, and a reason for everything that was disabled.
pub fn build_host_capabilities(
    interaction: InteractionMode,
    allow_listeners: bool,
    network_policy: &NetworkPolicy,
) -> (r: HostCapabilities)
    ensures
        r.adapters@ == spec_adapters_for_mode(
            interaction,
            spec_effective_policy(
                allow_listeners,
                network_policy.view_policy().allow_network,
                network_policy.view_policy().offline_only,
                network_policy.view_policy().allowlist.len() > 0,
            ),
        ),
        r.offline_only == network_policy.view_policy().offline_only,
        r.no_listeners == !(allow_listeners && !network_policy.view_policy().offline_only && (
        network_policy.view_policy().allow_network && !network_policy.view_policy().offline_only)),
{
    let effective_allow_network = network_policy.allow_network() && !network_policy.offline_only();
    let effective_allow_listeners = allow_listeners && !network_policy.offline_only()
        && effective_allow_network;
    let policy = InteractionPolicy {
        allow_listeners: effective_allow_listeners,
        allow_network: effective_allow_network,
        offline_only: network_policy.offline_only(),
        allowlist_configured: network_policy.allowlist_configured(),
    };
    let adapters = adapters_for_mode(interaction, &policy);
    let mut disabled_reasons: Vec<String> = Vec::new();
    if !allow_listeners {
        disabled_reasons.push(
            String::from_str("listeners not allowed (enable with --allow-listeners)"),
        );
    }
    if network_policy.offline_only() {
        disabled_reasons.push(
            String::from_str("offline-only mode disables listener adapters"),
        );
    }
    if !network_policy.allow_network() {
        disabled_reasons.push(
            String::from_str("network access disabled; listener adapters require network"),
        );
    }
    if network_policy.allow_network() && !network_policy.allowlist_configured() {
        disabled_reasons.push(
            String::from_str(
                "network allowlist is empty; outbound adapters remain disabled (set --net-allowlist)",
            ),
        );
    }
    if !effective_allow_listeners {
        disabled_reasons.push(String::from_str("http/mqtt adapters disabled by policy"));
    }
    HostCapabilities {
        adapters,
        no_listeners: !effective_allow_listeners,
        offline_only: network_policy.offline_only(),
        disabled_reasons,
    }
}

} // verus!
