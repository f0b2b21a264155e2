//! Which interaction adapters are available under a policy, and which the
//! configured mode selects.

use vstd::prelude::*;
use crate::config::InteractionMode;

verus! {

/// The four interchangeable transports for asking questions.
#[derive(Debug, Clone, Copy, PartialEq, Eq, Structural)]
pub enum InteractionAdapterKind {
    Cli,
    Json,
    Http,
    Mqtt,
}

/// The policy inputs adapter availability is decided from.
#[derive(Debug, Clone, Copy, PartialEq, Eq, Structural)]
pub struct InteractionPolicy {
    pub allow_listeners: bool,
    pub allow_network: bool,
    pub offline_only: bool,
    pub allowlist_configured: bool,
}

/// One interaction adapter's identity and availability rule.
pub trait InteractionAdapter {
    /// Which kind this adapter is.
    spec fn spec_kind(&self) -> InteractionAdapterKind;

    /// When this adapter is available under a policy.
    spec fn spec_is_available(&self, policy: InteractionPolicy) -> bool;

    fn id(&self) -> &'static str;

    fn kind(&self) -> (r: InteractionAdapterKind)
        ensures
            r == self.spec_kind(),
    ;

    fn is_available(&self, policy: &InteractionPolicy) -> (r: bool)
        ensures
            r == self.spec_is_available(*policy),
    ;
}

/// Terminal prompting: always available.
struct CliAdapter;

impl InteractionAdapter for CliAdapter {
    open spec fn spec_kind(&self) -> InteractionAdapterKind {
        InteractionAdapterKind::Cli
    }

    open spec fn spec_is_available(&self, policy: InteractionPolicy) -> bool {
        true
    }

    fn id(&self) -> &'static str {
        "cli"
    }

    fn kind(&self) -> (r: InteractionAdapterKind) {
        InteractionAdapterKind::Cli
    }

    fn is_available(&self, policy: &InteractionPolicy) -> (r: bool) {
        true
    }
}

/// Pre-supplied JSON answers: always available.
struct JsonAdapter;

impl InteractionAdapter for JsonAdapter {
    open spec fn spec_kind(&self) -> InteractionAdapterKind {
        InteractionAdapterKind::Json
    }

    open spec fn spec_is_available(&self, policy: InteractionPolicy) -> bool {
        true
    }

    fn id(&self) -> &'static str {
        "json"
    }

    fn kind(&self) -> (r: InteractionAdapterKind) {
        InteractionAdapterKind::Json
    }

    fn is_available(&self, policy: &InteractionPolicy) -> (r: bool) {
        true
    }
}

/// The ephemeral HTTP listener: needs listeners and network, and not
/// offline.
struct HttpAdapter;

impl InteractionAdapter for HttpAdapter {
    open spec fn spec_kind(&self) -> InteractionAdapterKind {
        InteractionAdapterKind::Http
    }

    open spec fn spec_is_available(&self, policy: InteractionPolicy) -> bool {
        policy.allow_listeners && policy.allow_network && !policy.offline_only
    }

    fn id(&self) -> &'static str {
        "http"
    }

    fn kind(&self) -> (r: InteractionAdapterKind) {
        InteractionAdapterKind::Http
    }

    fn is_available(&self, policy: &InteractionPolicy) -> (r: bool) {
        policy.allow_listeners && policy.allow_network && !policy.offline_only
    }
}

/// The publish/subscribe transport: additionally needs a configured
/// allowlist.
struct MqttAdapter;

impl InteractionAdapter for MqttAdapter {
    open spec fn spec_kind(&self) -> InteractionAdapterKind {
        InteractionAdapterKind::Mqtt
    }

    open spec fn spec_is_available(&self, policy: InteractionPolicy) -> bool {
        policy.allow_listeners && policy.allow_network && policy.allowlist_configured
            && !policy.offline_only
    }

    fn id(&self) -> &'static str {
        "mqtt"
    }

    fn kind(&self) -> (r: InteractionAdapterKind) {
        InteractionAdapterKind::Mqtt
    }

    fn is_available(&self, policy: &InteractionPolicy) -> (r: bool) {
        policy.allow_listeners && policy.allow_network && policy.allowlist_configured
            && !policy.offline_only
    }
}

/// Which kinds a policy makes available, in registry order.
pub open spec fn spec_available(policy: InteractionPolicy) -> Seq<InteractionAdapterKind> {
    let listeners_ok = policy.allow_listeners && policy.allow_network && !policy.offline_only;
    seq![InteractionAdapterKind::Cli, InteractionAdapterKind::Json] + (if listeners_ok {
        seq![InteractionAdapterKind::Http]
    } else {
        Seq::<InteractionAdapterKind>::empty()
    }) + (if listeners_ok && policy.allowlist_configured {
        seq![InteractionAdapterKind::Mqtt]
    } else {
        Seq::<InteractionAdapterKind>::empty()
    })
}

/// What a mode narrows the available kinds to: everything for `Auto`, the
/// matching kind alone otherwise.
pub open spec fn spec_adapters_for_mode(mode: InteractionMode, policy: InteractionPolicy) -> Seq<
    InteractionAdapterKind,
> {
    let available = spec_available(policy);
    match mode {
        InteractionMode::Auto => available,
        InteractionMode::Cli => available.filter(|k: InteractionAdapterKind| k is Cli),
        InteractionMode::Json => available.filter(|k: InteractionAdapterKind| k is Json),
        InteractionMode::Http => available.filter(|k: InteractionAdapterKind| k is Http),
        InteractionMode::Mqtt => available.filter(|k: InteractionAdapterKind| k is Mqtt),
    }
}

/// The adapters a mode may use under a policy: the available ones, narrowed
/// to the mode's own kind unless the mode is `Auto`.
pub fn adapters_for_mode(mode: InteractionMode, policy: &InteractionPolicy) -> (r: Vec<
    InteractionAdapterKind,
>)
    ensures
        r@ == spec_adapters_for_mode(mode, *policy),
{
    let cli = CliAdapter;
    let json = JsonAdapter;
    let http = HttpAdapter;
    let mqtt = MqttAdapter;
    let mut available: Vec<InteractionAdapterKind> = Vec::new();
    if cli.is_available(policy) {
        available.push(cli.kind());
    }
    if json.is_available(policy) {
        available.push(json.kind());
    }
    if http.is_available(policy) {
        available.push(http.kind());
    }
    if mqtt.is_available(policy) {
        available.push(mqtt.kind());
    }
    assert(available@ =~= spec_available(*policy));
    let n = available.len();
    let mut selected: Vec<InteractionAdapterKind> = Vec::new();
    let mut i: usize = 0;
    match mode {
        InteractionMode::Auto => {
            return available;
        },
        _ => {},
    }
    while i < n
        invariant
            i <= n,
            n == available@.len(),
            available@ == spec_available(*policy),
            !(mode is Auto),
            selected@ == (match mode {
                InteractionMode::Auto => available@.subrange(0, i as int),
                InteractionMode::Cli => available@.subrange(0, i as int).filter(
                    |k: InteractionAdapterKind| k is Cli,
                ),
                InteractionMode::Json => available@.subrange(0, i as int).filter(
                    |k: InteractionAdapterKind| k is Json,
                ),
                InteractionMode::Http => available@.subrange(0, i as int).filter(
                    |k: InteractionAdapterKind| k is Http,
                ),
                InteractionMode::Mqtt => available@.subrange(0, i as int).filter(
                    |k: InteractionAdapterKind| k is Mqtt,
                ),
            }),
        decreases n - i,
    {
        let k = available[i];
        let keep: bool = match mode {
            InteractionMode::Auto => true,
            InteractionMode::Cli => matches!(k, InteractionAdapterKind::Cli),
            InteractionMode::Json => matches!(k, InteractionAdapterKind::Json),
            InteractionMode::Http => matches!(k, InteractionAdapterKind::Http),
            InteractionMode::Mqtt => matches!(k, InteractionAdapterKind::Mqtt),
        };
        proof {
            reveal(Seq::filter);
            assert(available@.subrange(0, i + 1) =~= available@.subrange(0, i as int).push(
                available@[i as int],
            ));
        }
        if keep {
            selected.push(k);
        }
        proof {
            let sub = available@.subrange(0, i as int);
            let subn = available@.subrange(0, i + 1);
            assert(subn.drop_last() == sub);
            assert(subn.last() == available@[i as int]);
        }
        i = i + 1;
    }
    assert(available@.subrange(0, n as int) =~= available@);
    selected
}

} // verus!
