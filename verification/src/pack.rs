//! The platform pack as this crate reads it: the decoded manifest fields
//! the bootstrap logic depends on, the signature-verification policy, and
//! the resolution of which embedded flows drive install and upgrade.

use vstd::prelude::*;
use crate::errors::BootstrapError;
use crate::output::texts_view;
use crate::strutil::{concat3, str_eq};
use vstd::string::StringExecFns;

verus! {

/// One signature entry of a pack manifest: only presence and non-emptiness
/// matter here, cryptographic validity is an outside collaborator's job.
#[derive(Debug, Clone)]
pub struct PackSignature {
    pub key_id: String,
    pub signature: Vec<u8>,
}

/// What the bootstrap subsystem reads from a decoded pack manifest.
#[derive(Debug, Clone)]
pub struct PackManifest {
    pub pack_id: String,
    pub version: String,
    pub flows: Vec<String>,
    pub signatures: Vec<PackSignature>,
    pub bootstrap: Option<BootstrapSpec>,
}

/// The manifest's optional bootstrap block.
#[derive(Debug, Clone)]
pub struct BootstrapSpec {
    pub install_flow: Option<String>,
    pub upgrade_flow: Option<String>,
    pub installer_component: Option<String>,
}

/// A loaded platform pack: its manifest and the archive's own digest.
#[derive(Debug, Clone)]
pub struct PlatformPackInfo {
    pub manifest: PackManifest,
    pub digest: Option<String>,
}

/// Whether and how strictly signatures are checked.
#[derive(Debug, Clone, Copy, PartialEq, Eq, Structural)]
pub struct VerificationPolicy {
    pub verify: bool,
    pub strict: bool,
}

/// The outcome of verification: the warnings it accumulated.
#[derive(Debug, Clone)]
pub struct VerificationOutcome {
    pub warnings: Vec<String>,
}

/// Whether any signature entry carries an empty payload.
pub open spec fn spec_has_empty_signature(signatures: Seq<PackSignature>) -> bool {
    exists|i: int| 0 <= i < signatures.len() && (#[trigger] signatures[i]).signature@.len() == 0
}

/// Applies the signature-verification policy to a loaded pack.
///
/// With verification off, a single warning notes the skip.  With it on:
/// no signatures at all fail hard only under the strict policy and warn
/// otherwise; any present signature with an empty payload fails under
/// either policy.  Nothing beyond non-emptiness is inspected here.
#[verifier::loop_isolation(false)]
pub fn verify_platform_pack(info: &PlatformPackInfo, policy: VerificationPolicy) -> (r: Result<
    VerificationOutcome,
    BootstrapError,
>)
    ensures
        !policy.verify ==> (r matches Result::Ok(outcome) && outcome.warnings@.len() == 1),
        policy.verify && info.manifest.signatures@.len() == 0 && policy.strict ==> (r matches Result
            ::Err(e) && e is Pack),
        policy.verify && info.manifest.signatures@.len() == 0 && !policy.strict ==> (r matches Result
            ::Ok(outcome) && outcome.warnings@.len() == 1),
        policy.verify && info.manifest.signatures@.len() > 0 ==> {
            if spec_has_empty_signature(info.manifest.signatures@) {
                r matches Result::Err(e) && e is Pack
            } else {
                r matches Result::Ok(outcome) && outcome.warnings@.len() == 0
            }
        },
{
    let mut warnings: Vec<String> = Vec::new();
    if !policy.verify {
        warnings.push(String::from_str("verification skipped (--verify=false)"));
        return Result::Ok(VerificationOutcome { warnings });
    }
    let n = info.manifest.signatures.len();
    if n == 0 {
        if policy.strict {
            return Result::Err(
                BootstrapError::Pack(
                    String::from_str("pack missing signatures; pass --verify=false to bypass"),
                ),
            );
        }
        warnings.push(String::from_str("pack missing signatures"));
        return Result::Ok(VerificationOutcome { warnings });
    }
    let mut i: usize = 0;
    while i < n
        invariant
            i <= n,
            n == info.manifest.signatures@.len(),
            forall|j: int|
                0 <= j < i ==> (#[trigger] info.manifest.signatures@[j]).signature@.len() > 0,
        decreases n - i,
    {
        if info.manifest.signatures[i].signature.len() == 0 {
            let msg = concat3(
                "invalid signature for key_id=",
                info.manifest.signatures[i].key_id.as_str(),
                " (empty payload)",
            );
            return Result::Err(BootstrapError::Pack(msg));
        }
        i = i + 1;
    }
    Result::Ok(VerificationOutcome { warnings })
}

/// Which flows and installer component drive bootstrap, resolved from the
/// manifest with fixed defaults.
#[derive(Debug, Clone)]
pub struct BootstrapResolution {
    pub install_flow: String,
    pub upgrade_flow: String,
    pub installer_component: String,
}

/// Whether the manifest declares a flow with this id.
pub open spec fn spec_flow_exists(flows: Seq<Seq<char>>, id: Seq<char>) -> bool {
    exists|i: int| 0 <= i < flows.len() && flows[i] == id
}

fn flow_exists(flows: &Vec<String>, id: &str) -> (r: bool)
    ensures
        r == spec_flow_exists(texts_view(flows@), id@),
{
    let n = flows.len();
    let mut i: usize = 0;
    while i < n
        invariant
            i <= n,
            n == flows@.len(),
            forall|j: int| 0 <= j < i ==> texts_view(flows@)[j] != id@,
        decreases n - i,
    {
        assert(texts_view(flows@)[i as int] == flows@[i as int]@);
        if str_eq(flows[i].as_str(), id) {
            return true;
        }
        i = i + 1;
    }
    false
}

/// The flow names resolution picks: the declared names, with fixed
/// defaults when the manifest's bootstrap block is absent or partial.
pub open spec fn spec_resolved_install(m: PackManifest) -> Seq<char> {
    match m.bootstrap {
        Option::Some(b) => match b.install_flow {
            Option::Some(f) => f@,
            Option::None => "platform_install"@,
        },
        Option::None => "platform_install"@,
    }
}

pub open spec fn spec_resolved_upgrade(m: PackManifest) -> Seq<char> {
    match m.bootstrap {
        Option::Some(b) => match b.upgrade_flow {
            Option::Some(f) => f@,
            Option::None => "platform_upgrade"@,
        },
        Option::None => "platform_upgrade"@,
    }
}

pub open spec fn spec_resolved_installer(m: PackManifest) -> Seq<char> {
    match m.bootstrap {
        Option::Some(b) => match b.installer_component {
            Option::Some(c) => c@,
            Option::None => "installer"@,
        },
        Option::None => "installer"@,
    }
}

/// Resolves the bootstrap flows from manifest metadata, defaulting to
/// fixed names when absent; both flow names must exist among the pack's
/// declared flows before use.
pub fn resolve_bootstrap(manifest: &PackManifest) -> (r: Result<BootstrapResolution, BootstrapError>)
    ensures
        match r {
            Result::Ok(res) => {
                &&& res.install_flow@ == spec_resolved_install(*manifest)
                &&& res.upgrade_flow@ == spec_resolved_upgrade(*manifest)
                &&& res.installer_component@ == spec_resolved_installer(*manifest)
                &&& spec_flow_exists(
                    texts_view(manifest.flows@),
                    spec_resolved_install(*manifest),
                )
                &&& spec_flow_exists(
                    texts_view(manifest.flows@),
                    spec_resolved_upgrade(*manifest),
                )
            },
            Result::Err(e) => e is Pack && (!spec_flow_exists(
                texts_view(manifest.flows@),
                spec_resolved_install(*manifest),
            ) || !spec_flow_exists(
                texts_view(manifest.flows@),
                spec_resolved_upgrade(*manifest),
            )),
        },
{
    let install: String = match &manifest.bootstrap {
        Option::Some(b) => match &b.install_flow {
            Option::Some(f) => f.clone(),
            Option::None => String::from_str("platform_install"),
        },
        Option::None => String::from_str("platform_install"),
    };
    let upgrade: String = match &manifest.bootstrap {
        Option::Some(b) => match &b.upgrade_flow {
            Option::Some(f) => f.clone(),
            Option::None => String::from_str("platform_upgrade"),
        },
        Option::None => String::from_str("platform_upgrade"),
    };
    let installer: String = match &manifest.bootstrap {
        Option::Some(b) => match &b.installer_component {
            Option::Some(c) => c.clone(),
            Option::None => String::from_str("installer"),
        },
        Option::None => String::from_str("installer"),
    };
    if !flow_exists(&manifest.flows, install.as_str()) {
        return Result::Err(
            BootstrapError::Pack(
                concat3("bootstrap flow '", install.as_str(), "' not found in manifest"),
            ),
        );
    }
    if !flow_exists(&manifest.flows, upgrade.as_str()) {
        return Result::Err(
            BootstrapError::Pack(
                concat3("bootstrap flow '", upgrade.as_str(), "' not found in manifest"),
            ),
        );
    }
    Result::Ok(
        BootstrapResolution {
            install_flow: install,
            upgrade_flow: upgrade,
            installer_component: installer,
        },
    )
}

/// The archive entry a bootstrap flow lives in: `flows/<id>.ygtc`.
pub fn flow_entry_path(flow_id: &str) -> (r: String)
    ensures
        r@ == "flows/"@ + flow_id@ + ".ygtc"@,
{
    concat3("flows/", flow_id, ".ygtc")
}

/// The flow id an install or upgrade run uses.
pub fn bootstrap_flow_id(resolution: &BootstrapResolution, install: bool) -> (r: String)
    ensures
        install ==> r@ == resolution.install_flow@,
        !install ==> r@ == resolution.upgrade_flow@,
{
    if install {
        resolution.install_flow.clone()
    } else {
        resolution.upgrade_flow.clone()
    }
}

} // verus!
