//! The configuration patch store: the installer's patch written verbatim as
//! JSON, with the same snapshot/restore contract as the secrets backend.

use vstd::prelude::*;
use crate::json::{json_view, json_to_string, spec_json_text, JsonValue};
use crate::secrets::RestoreAction;
use crate::strutil::{concat2, rfind_char, spec_rfind_char, substr};
use vstd::string::StringExecFns;

verus! {

/// The prior state of the config patch file, captured immediately before a
/// mutating write and used exclusively for best-effort restoration.
#[derive(Debug, Clone)]
pub struct ConfigSnapshot {
    pub existed: bool,
    pub content: Option<String>,
}

/// The default patch location: a sibling of the bootstrap state file.
pub open spec fn spec_default_config_patch_path(state_path: Seq<char>) -> Seq<char> {
    match spec_rfind_char(state_path, '/') {
        Option::Some(i) => if i > 0 {
            state_path.subrange(0, i) + "/config_patch.json"@
        } else {
            "/config_patch.json"@
        },
        Option::None => "config_patch.json"@,
    }
}

/// Default path for storing the applied config patch (sibling to bootstrap
/// state).
pub fn default_config_patch_path(state_path: &str) -> (r: String)
    ensures
        r@ == spec_default_config_patch_path(state_path@),
{
    proof {
        reveal_strlit("/config_patch.json");
        reveal_strlit("config_patch.json");
    }
    match rfind_char(state_path, '/') {
        Option::Some(i) => {
            if i > 0 {
                let dir = substr(state_path, 0, i);
                concat2(dir.as_str(), "/config_patch.json")
            } else {
                String::from_str("/config_patch.json")
            }
        },
        Option::None => String::from_str("config_patch.json"),
    }
}

/// Captures the patch file's prior existence and content.
pub fn snapshot_config(file_content: Option<String>) -> (r: ConfigSnapshot)
    ensures
        r.existed == (file_content is Some),
        crate::state::opt_text_view(r.content) == crate::state::opt_text_view(file_content),
{
    match file_content {
        Option::Some(content) => ConfigSnapshot { existed: true, content: Option::Some(content) },
        Option::None => ConfigSnapshot { existed: false, content: Option::None },
    }
}

/// The patch file's new content: the installer's patch rendered verbatim
/// as JSON, no merge.
pub fn render_config_patch(patch: &JsonValue) -> (r: String)
    ensures
        r@ == spec_json_text(json_view(*patch)),
{
    json_to_string(patch)
}

/// Decides how to restore the patch file from its snapshot: rewrite the
/// prior content (empty when none was captured), or remove the file that
/// did not exist before the run.
pub fn restore_config(path: &String, snapshot: &ConfigSnapshot) -> (r: RestoreAction)
    ensures
        snapshot.existed ==> (r matches RestoreAction::WriteFile { path: out_path, content }
            && out_path@ == path@ && content@ == (match snapshot.content {
            Option::Some(prior) => prior@,
            Option::None => Seq::<char>::empty(),
        })),
        !snapshot.existed ==> (r matches RestoreAction::RemoveFileIfExists { path: out_path }
            && out_path@ == path@),
{
    if snapshot.existed {
        let content: String = match &snapshot.content {
            Option::Some(prior) => prior.clone(),
            Option::None => String::new(),
        };
        RestoreAction::WriteFile { path: path.clone(), content }
    } else {
        RestoreAction::RemoveFileIfExists { path: path.clone() }
    }
}

} // verus!
