//! The commit half of an install or upgrade run: after the flow has
//! produced its output, secrets are written, then the configuration patch,
//! then the deploy hook runs, then the state record is persisted — and any
//! failure after the snapshots rolls the already-written resources back in
//! reverse dependency order.

use vstd::prelude::*;
use crate::config_patch::{restore_config, ConfigSnapshot};
use crate::secrets::{restore_backend, RestoreAction, SecretsSnapshot};
use crate::state::BootstrapState;
use crate::strutil::concat5;
use vstd::string::StringExecFns;

verus! {

/// The steps of the commit sequence, in the order they run.
#[derive(Debug, Clone, Copy, PartialEq, Eq, Structural)]
pub enum CommitPhase {
    /// About to write secrets.
    Secrets,
    /// Secrets written; about to write the config patch.
    Config,
    /// Config patch written; about to run the deploy hook.
    Hook,
    /// Hook done; about to persist the state record.
    SaveState,
    /// Everything committed.
    Done,
    /// A step failed; the rollback plan has been issued.
    Failed,
}

/// What to undo after a failed step, to be applied in this order: the
/// secrets store first, then the configuration patch — the reverse of the
/// order they were written in.
pub struct RollbackPlan {
    /// Restores the secrets store to its snapshot, when one was captured.
    pub restore_secrets: Option<RestoreAction>,
    /// Restores the config patch to its pre-run state, when it had already
    /// been written this run.
    pub restore_config: Option<RestoreAction>,
}

/// Drives the commit sequence: each call to [`CommitMachine::advance`]
/// reports whether the step the machine was about to confirm succeeded,
/// and a failure yields the rollback plan for everything written so far.
pub struct CommitMachine {
    phase: CommitPhase,
    config_path: String,
    config_snapshot: ConfigSnapshot,
    secrets_snapshot: Option<SecretsSnapshot>,
}

impl CommitMachine {
    pub closed spec fn phase(&self) -> CommitPhase {
        self.phase
    }

    pub closed spec fn config_existed(&self) -> bool {
        self.config_snapshot.existed
    }

    pub closed spec fn config_prior_content(&self) -> Option<Seq<char>> {
        crate::state::opt_text_view(self.config_snapshot.content)
    }

    pub closed spec fn config_path_view(&self) -> Seq<char> {
        self.config_path@
    }

    pub closed spec fn secrets_restorable(&self) -> bool {
        match self.secrets_snapshot {
            Option::Some(snapshot) => snapshot.backend is File,
            Option::None => false,
        }
    }

    /// Starts a commit over the snapshots taken immediately before any
    /// write.
    pub fn new(
        config_path: String,
        config_snapshot: ConfigSnapshot,
        secrets_snapshot: Option<SecretsSnapshot>,
    ) -> (r: Self)
        ensures
            r.phase() is Secrets,
            r.config_existed() == config_snapshot.existed,
            r.config_prior_content() == crate::state::opt_text_view(config_snapshot.content),
            r.config_path_view() == config_path@,
            r.secrets_restorable() == (match secrets_snapshot {
                Option::Some(snapshot) => snapshot.backend is File,
                Option::None => false,
            }),
    {
        CommitMachine { phase: CommitPhase::Secrets, config_path, config_snapshot, secrets_snapshot }
    }

    /// Confirms or fails the pending step.  On success the machine moves to
    /// the next step and nothing is rolled back.  On failure it stops, and
    /// the returned plan restores the secrets store (when a snapshot
    /// exists) and — for every failure after the config patch was written —
    /// the config patch to its pre-run state, or removes it when it did
    /// not previously exist.
    pub fn advance(&mut self, ok: bool) -> (r: Option<RollbackPlan>)
        requires
            !(old(self).phase() is Done),
            !(old(self).phase() is Failed),
        ensures
            final(self).config_existed() == old(self).config_existed(),
            final(self).config_prior_content() == old(self).config_prior_content(),
            final(self).config_path_view() == old(self).config_path_view(),
            final(self).secrets_restorable() == old(self).secrets_restorable(),
            ok ==> r is None && final(self).phase() == (match old(self).phase() {
                CommitPhase::Secrets => CommitPhase::Config,
                CommitPhase::Config => CommitPhase::Hook,
                CommitPhase::Hook => CommitPhase::SaveState,
                _ => CommitPhase::Done,
            }),
            !ok ==> final(self).phase() is Failed && (r matches Option::Some(plan) && {
                &&& (plan.restore_secrets is Some <==> old(self).secrets_restorable())
                &&& (plan.restore_config is Some <==> !(old(self).phase() is Secrets))
                &&& (!(old(self).phase() is Secrets) ==> spec_restores_config_to_prior(
                    plan.restore_config->Some_0,
                    old(self).config_path_view(),
                    old(self).config_existed(),
                    old(self).config_prior_content(),
                ))
            }),
    {
        if ok {
            self.phase = match self.phase {
                CommitPhase::Secrets => CommitPhase::Config,
                CommitPhase::Config => CommitPhase::Hook,
                CommitPhase::Hook => CommitPhase::SaveState,
                _ => CommitPhase::Done,
            };
            return Option::None;
        }
        let restore_secrets: Option<RestoreAction> = match &self.secrets_snapshot {
            Option::Some(snapshot) => match restore_backend(snapshot) {
                Result::Ok(action) => Option::Some(action),
                Result::Err(_) => Option::None,
            },
            Option::None => Option::None,
        };
        let restore_config_action: Option<RestoreAction> = match self.phase {
            CommitPhase::Secrets => Option::None,
            _ => Option::Some(restore_config(&self.config_path, &self.config_snapshot)),
        };
        self.phase = CommitPhase::Failed;
        Option::Some(RollbackPlan { restore_secrets, restore_config: restore_config_action })
    }
}

/// Whether an action puts the config patch back exactly as it was before
/// the run: the prior content rewritten, or the file removed when none
/// existed.
pub open spec fn spec_restores_config_to_prior(
    action: RestoreAction,
    path: Seq<char>,
    existed: bool,
    prior: Option<Seq<char>>,
) -> bool {
    if existed {
        action matches RestoreAction::WriteFile { path: out_path, content } && out_path@ == path
            && content@ == (match prior {
            Option::Some(text) => text,
            Option::None => Seq::<char>::empty(),
        })
    } else {
        action matches RestoreAction::RemoveFileIfExists { path: out_path } && out_path@ == path
    }
}

/// Any step failing after the config patch was successfully written leaves
/// a rollback plan that restores the patch to its pre-run state, or
/// removes it when it did not previously exist.
pub proof fn lemma_failure_after_config_write_restores_config(
    machine: CommitMachine,
    plan: RollbackPlan,
)
    requires
        machine.phase() is Hook || machine.phase() is SaveState,
        plan.restore_config is Some <==> !(machine.phase() is Secrets),
        !(machine.phase() is Secrets) ==> spec_restores_config_to_prior(
            plan.restore_config->Some_0,
            machine.config_path_view(),
            machine.config_existed(),
            machine.config_prior_content(),
        ),
    ensures
        plan.restore_config matches Option::Some(action) && spec_restores_config_to_prior(
            action,
            machine.config_path_view(),
            machine.config_existed(),
            machine.config_prior_content(),
        ),
{
}

/// The human-readable rollback reference recorded on upgrade: the version
/// and digest that were installed before it.
pub fn rollback_ref_string(existing: &BootstrapState) -> (r: String)
    ensures
        r@ == "version="@ + (match crate::state::state_view(*existing).version {
            Option::Some(v) => v,
            Option::None => "unknown"@,
        }) + ",digest="@ + (match crate::state::state_view(*existing).digest {
            Option::Some(d) => d,
            Option::None => "unknown"@,
        }),
{
    let version: String = match &existing.version {
        Option::Some(v) => v.clone(),
        Option::None => String::from_str("unknown"),
    };
    let digest: String = match &existing.digest {
        Option::Some(d) => d.clone(),
        Option::None => String::from_str("unknown"),
    };
    let r = concat5("version=", version.as_str(), ",digest=", digest.as_str(), "");
    proof {
        reveal_strlit("");
        assert(r@ =~= "version="@ + version@ + ",digest="@ + digest@);
    }
    r
}

} // verus!
