//! The deployment-pack dispatch table: which pack and flow serve a
//! provider/strategy target, with environment overrides taking precedence
//! over the built-in defaults.

use vstd::prelude::*;
use crate::errors::BootstrapError;
use crate::strutil::{concat2, concat3, push_char, str_eq};
use vstd::string::StringExecFns;

verus! {

/// Logical deployment target keyed by provider + strategy.
#[derive(Debug, Clone)]
pub struct DeploymentTarget {
    pub provider: String,
    pub strategy: String,
}

/// Dispatch details describing which deployment pack/flow to run.
#[derive(Debug, Clone)]
pub struct DeploymentDispatch {
    pub pack_id: String,
    pub flow_id: String,
}

/// The mathematical image of the table: target key pair to dispatch pair.
pub open spec fn table_view(t: Seq<(DeploymentTarget, DeploymentDispatch)>) -> Seq<
    ((Seq<char>, Seq<char>), (Seq<char>, Seq<char>)),
> {
    t.map_values(
        |e: (DeploymentTarget, DeploymentDispatch)|
            ((e.0.provider@, e.0.strategy@), (e.1.pack_id@, e.1.flow_id@)),
    )
}

/// The built-in placeholder defaults, in a fixed order.
pub open spec fn spec_default_table() -> Seq<((Seq<char>, Seq<char>), (Seq<char>, Seq<char>))> {
    seq![
        (("aws"@, "iac-only"@), ("greentic.demo.deploy.aws"@, "deploy_aws_iac"@)),
        (("local"@, "iac-only"@), ("greentic.demo.deploy.local"@, "deploy_local_iac"@)),
        (("azure"@, "iac-only"@), ("greentic.demo.deploy.azure"@, "deploy_azure_iac"@)),
        (("gcp"@, "iac-only"@), ("greentic.demo.deploy.gcp"@, "deploy_gcp_iac"@)),
        (("k8s"@, "iac-only"@), ("greentic.demo.deploy.k8s"@, "deploy_k8s_iac"@)),
        (("generic"@, "iac-only"@), ("greentic.demo.deploy.generic"@, "deploy_generic_iac"@)),
    ]
}

fn table_entry(provider: &str, strategy: &str, pack_id: &str, flow_id: &str) -> (r: (
    DeploymentTarget,
    DeploymentDispatch,
))
    ensures
        r.0.provider@ == provider@,
        r.0.strategy@ == strategy@,
        r.1.pack_id@ == pack_id@,
        r.1.flow_id@ == flow_id@,
{
    (
        DeploymentTarget {
            provider: String::from_str(provider),
            strategy: String::from_str(strategy),
        },
        DeploymentDispatch {
            pack_id: String::from_str(pack_id),
            flow_id: String::from_str(flow_id),
        },
    )
}

/// Built-in placeholder defaults.  Real packs should replace these entries
/// later.
pub fn default_dispatch_table() -> (r: Vec<(DeploymentTarget, DeploymentDispatch)>)
    ensures
        table_view(r@) == spec_default_table(),
{
    let mut table: Vec<(DeploymentTarget, DeploymentDispatch)> = Vec::new();
    table.push(table_entry("aws", "iac-only", "greentic.demo.deploy.aws", "deploy_aws_iac"));
    table.push(table_entry("local", "iac-only", "greentic.demo.deploy.local", "deploy_local_iac"));
    table.push(table_entry("azure", "iac-only", "greentic.demo.deploy.azure", "deploy_azure_iac"));
    table.push(table_entry("gcp", "iac-only", "greentic.demo.deploy.gcp", "deploy_gcp_iac"));
    table.push(table_entry("k8s", "iac-only", "greentic.demo.deploy.k8s", "deploy_k8s_iac"));
    table.push(
        table_entry("generic", "iac-only", "greentic.demo.deploy.generic", "deploy_generic_iac"),
    );
    assert(table_view(table@) =~= spec_default_table());
    table
}

/// The first table entry for a target, by exact provider and strategy.
pub open spec fn spec_table_get(
    table: Seq<((Seq<char>, Seq<char>), (Seq<char>, Seq<char>))>,
    provider: Seq<char>,
    strategy: Seq<char>,
) -> Option<(Seq<char>, Seq<char>)>
    decreases table,
{
    if table.len() == 0 {
        Option::None
    } else if table[0].0 == (provider, strategy) {
        Option::Some(table[0].1)
    } else {
        spec_table_get(table.drop_first(), provider, strategy)
    }
}

/// Looks a target up in the default table.
pub fn lookup_default(target: &DeploymentTarget) -> (r: Option<DeploymentDispatch>)
    ensures
        match r {
            Option::Some(d) => spec_table_get(
                spec_default_table(),
                target.provider@,
                target.strategy@,
            ) == Option::Some((d.pack_id@, d.flow_id@)),
            Option::None => spec_table_get(
                spec_default_table(),
                target.provider@,
                target.strategy@,
            ) is None,
        },
{
    let table = default_dispatch_table();
    let ghost gtable = table_view(table@);
    let n = table.len();
    let mut i: usize = 0;
    assert(gtable.subrange(0, n as int) =~= gtable);
    while i < n
        invariant
            i <= n,
            n == table@.len(),
            gtable == table_view(table@),
            gtable == spec_default_table(),
            gtable.len() == n,
            spec_table_get(gtable, target.provider@, target.strategy@) == spec_table_get(
                gtable.subrange(i as int, n as int),
                target.provider@,
                target.strategy@,
            ),
        decreases n - i,
    {
        let ghost rest = gtable.subrange(i as int, n as int);
        assert(rest[0] == gtable[i as int]);
        assert(rest.drop_first() =~= gtable.subrange(i + 1, n as int));
        assert(gtable[i as int] == (
        (table@[i as int].0.provider@, table@[i as int].0.strategy@),
        (table@[i as int].1.pack_id@, table@[i as int].1.flow_id@),
        ));
        if str_eq(table[i].0.provider.as_str(), target.provider.as_str()) && str_eq(
            table[i].0.strategy.as_str(),
            target.strategy.as_str(),
        ) {
            return Option::Some(
                DeploymentDispatch {
                    pack_id: table[i].1.pack_id.clone(),
                    flow_id: table[i].1.flow_id.clone(),
                },
            );
        }
        i = i + 1;
    }
    assert(gtable.subrange(n as int, n as int) =~= Seq::<
        ((Seq<char>, Seq<char>), (Seq<char>, Seq<char>)),
    >::empty());
    Option::None
}

/// The image of one character in an environment key: ASCII alphanumerics
/// uppercased, everything else an underscore.
pub open spec fn spec_sanitize_char(c: char) -> char {
    if 'a' <= c && c <= 'z' {
        (((c as u8) - 32) as char)
    } else if ('A' <= c && c <= 'Z') || ('0' <= c && c <= '9') {
        c
    } else {
        '_'
    }
}

pub open spec fn spec_sanitize_key(s: Seq<char>) -> Seq<char> {
    s.map_values(|c: char| spec_sanitize_char(c))
}

/// Uppercases ASCII alphanumerics and replaces everything else with an
/// underscore, forming an environment-variable key part.
pub fn sanitize_key(input: &str) -> (r: String)
    ensures
        r@ == spec_sanitize_key(input@),
{
    let n: usize = input.unicode_len();
    let mut out = String::new();
    let mut i: usize = 0;
    while i < n
        invariant
            i <= n,
            n == input@.len(),
            out@ =~= spec_sanitize_key(input@).subrange(0, i as int),
        decreases n - i,
    {
        let c = input.get_char(i);
        let mapped: char = if 'a' <= c && c <= 'z' {
            (((c as u8) - 32) as char)
        } else if ('A' <= c && c <= 'Z') || ('0' <= c && c <= '9') {
            c
        } else {
            '_'
        };
        assert(mapped == spec_sanitize_char(input@[i as int]));
        push_char(&mut out, mapped);
        assert(out@ =~= spec_sanitize_key(input@).subrange(0, i + 1));
        i = i + 1;
    }
    assert(spec_sanitize_key(input@).subrange(0, n as int) =~= spec_sanitize_key(input@));
    out
}

/// The environment keys a target's override is read from.
pub open spec fn spec_env_prefix(provider: Seq<char>, strategy: Seq<char>) -> Seq<char> {
    "DEPLOY_TARGET_"@ + spec_sanitize_key(provider) + "_"@ + spec_sanitize_key(strategy)
}

/// Builds `DEPLOY_TARGET_<PROVIDER>_<STRATEGY>` with both parts sanitized.
pub fn env_prefix(target: &DeploymentTarget) -> (r: String)
    ensures
        r@ == spec_env_prefix(target.provider@, target.strategy@),
{
    let p = sanitize_key(target.provider.as_str());
    let s = sanitize_key(target.strategy.as_str());
    let head = concat3("DEPLOY_TARGET_", p.as_str(), "_");
    concat2(head.as_str(), s.as_str())
}

/// What a pair of override values decides: both set picks that dispatch,
/// neither falls through, one alone is a configuration error.
pub fn dispatch_from_overrides(
    target: &DeploymentTarget,
    pack: Option<String>,
    flow: Option<String>,
) -> (r: Result<Option<DeploymentDispatch>, BootstrapError>)
    ensures
        match (crate::state::opt_text_view(pack), crate::state::opt_text_view(flow)) {
            (Option::Some(p), Option::Some(f)) => r matches Result::Ok(Option::Some(d))
                && d.pack_id@ == p && d.flow_id@ == f,
            (Option::None, Option::None) => r matches Result::Ok(o) && o is None,
            _ => r matches Result::Err(e) && e is Config,
        },
{
    match (pack, flow) {
        (Option::Some(pack_id), Option::Some(flow_id)) => Result::Ok(
            Option::Some(DeploymentDispatch { pack_id, flow_id }),
        ),
        (Option::None, Option::None) => Result::Ok(Option::None),
        _ => Result::Err(
            BootstrapError::Config(
                String::from_str(
                    "Incomplete deployment mapping overrides. Both the pack id and flow id keys must be set.",
                ),
            ),
        ),
    }
}

/// The environment key a target's pack override is read from.
pub open spec fn spec_pack_key(provider: Seq<char>, strategy: Seq<char>) -> Seq<char> {
    spec_env_prefix(provider, strategy) + "_PACK_ID"@
}

/// The environment key a target's flow override is read from.
pub open spec fn spec_flow_key(provider: Seq<char>, strategy: Seq<char>) -> Seq<char> {
    spec_env_prefix(provider, strategy) + "_FLOW_ID"@
}

/// What the resolution decides once the two override values are known.
pub open spec fn spec_resolution(
    target_provider: Seq<char>,
    target_strategy: Seq<char>,
    pack: Option<Seq<char>>,
    flow: Option<Seq<char>>,
    r: Result<DeploymentDispatch, BootstrapError>,
) -> bool {
    match (pack, flow) {
        (Option::Some(p), Option::Some(f)) => r matches Result::Ok(d) && d.pack_id@ == p
            && d.flow_id@ == f,
        (Option::None, Option::None) => match spec_table_get(
            spec_default_table(),
            target_provider,
            target_strategy,
        ) {
            Option::Some(entry) => r matches Result::Ok(d) && (d.pack_id@, d.flow_id@) == entry,
            Option::None => r matches Result::Err(e) && e is Config,
        },
        _ => r matches Result::Err(e) && e is Config,
    }
}

/// Resolves the dispatch entry for a target from an environment lookup:
/// a complete override wins, an incomplete one is an error, otherwise the
/// default table answers, and an unmapped target is a configuration error.
/// The environment is the caller's closure, so the outcome is pinned only
/// relative to what that closure answered for the two keys.
pub fn resolve_dispatch_with_env<F: Fn(&str) -> Option<String>>(
    target: &DeploymentTarget,
    get_env: F,
) -> (r: Result<DeploymentDispatch, BootstrapError>)
    requires
        forall|s: &str| #[trigger] call_requires(get_env, (s,)),
    ensures
        r matches Result::Err(e) ==> e is Config,
        exists|k1: &str, k2: &str, pack: Option<String>, flow: Option<String>|
            {
                &&& k1@ == spec_pack_key(target.provider@, target.strategy@)
                &&& k2@ == spec_flow_key(target.provider@, target.strategy@)
                &&& #[trigger] call_ensures(get_env, (k1,), pack)
                &&& #[trigger] call_ensures(get_env, (k2,), flow)
                &&& spec_resolution(
                    target.provider@,
                    target.strategy@,
                    crate::state::opt_text_view(pack),
                    crate::state::opt_text_view(flow),
                    r,
                )
            },
{
    let prefix = env_prefix(target);
    let pack_key = concat2(prefix.as_str(), "_PACK_ID");
    let flow_key = concat2(prefix.as_str(), "_FLOW_ID");
    let pack_key_ref: &str = pack_key.as_str();
    let flow_key_ref: &str = flow_key.as_str();
    let pack = get_env(pack_key_ref);
    let flow = get_env(flow_key_ref);
    match dispatch_from_overrides(target, pack, flow) {
        Result::Ok(Option::Some(dispatch)) => {
            return Result::Ok(dispatch);
        },
        Result::Ok(Option::None) => {},
        Result::Err(e) => {
            return Result::Err(e);
        },
    }
    match lookup_default(target) {
        Option::Some(dispatch) => Result::Ok(dispatch),
        Option::None => Result::Err(
            BootstrapError::Config(
                unmapped_target_message(target.provider.as_str(), target.strategy.as_str()),
            ),
        ),
    }
}

/// The unmapped-target message, naming the provider and strategy.
fn unmapped_target_message(provider: &str, strategy: &str) -> (r: String) {
    let head = concat3("No deployment pack mapping for provider=", provider, " strategy=");
    concat3(
        head.as_str(),
        strategy,
        ". Configure the DEPLOY_TARGET override keys or extend the defaults.",
    )
}

} // verus!
