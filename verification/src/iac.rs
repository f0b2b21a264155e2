//! Which infrastructure-as-code tool a run uses, and the command sequences
//! a dry run prints instead of executing.

use vstd::prelude::*;
use crate::strutil::{lower_seq, spec_trim, str_eq, trim_ascii, ascii_lower};
use vstd::string::StringExecFns;

verus! {

/// Supported IaC tools.
#[derive(Debug, Clone, Copy, PartialEq, Eq, Structural)]
pub enum IaCTool {
    Terraform,
    OpenTofu,
}

impl IaCTool {
    /// The binary the tool is invoked as.
    pub fn binary_name(&self) -> (r: &'static str)
        ensures
            (*self is Terraform ==> r@ == "terraform"@) && (*self is OpenTofu ==> r@ == "tofu"@),
    {
        match self {
            IaCTool::Terraform => "terraform",
            IaCTool::OpenTofu => "tofu",
        }
    }

    /// Reads a tool choice from an environment value: trimmed and
    /// ASCII-lowercased, `terraform`/`tf` or `opentofu`/`tofu`.
    pub fn from_env(value: &str) -> (r: Option<IaCTool>)
        ensures
            ({
                let v = lower_seq(spec_trim(value@));
                match r {
                    Option::Some(tool) => (tool is Terraform <==> (v == "terraform"@ || v
                        == "tf"@)) && (tool is OpenTofu <==> (v == "opentofu"@ || v == "tofu"@)),
                    Option::None => v != "terraform"@ && v != "tf"@ && v != "opentofu"@ && v
                        != "tofu"@,
                }
            }),
    {
        proof {
            reveal_strlit("terraform");
            reveal_strlit("tf");
            reveal_strlit("opentofu");
            reveal_strlit("tofu");
            assert("terraform"@.len() == 9);
            assert("tf"@.len() == 2);
            assert("opentofu"@.len() == 8);
            assert("tofu"@.len() == 4);
        }
        let trimmed = trim_ascii(value);
        let lowered = ascii_lower(trimmed.as_str());
        if str_eq(lowered.as_str(), "terraform") || str_eq(lowered.as_str(), "tf") {
            Option::Some(IaCTool::Terraform)
        } else if str_eq(lowered.as_str(), "opentofu") || str_eq(lowered.as_str(), "tofu") {
            Option::Some(IaCTool::OpenTofu)
        } else {
            Option::None
        }
    }
}

/// The texts of a command's arguments.
pub open spec fn strs_view(s: Seq<&'static str>) -> Seq<Seq<char>> {
    s.map_values(|t: &'static str| t@)
}

/// The command sequences a dry run reports: init/plan/apply, or
/// init/destroy when destroying.
pub fn dry_run_commands(destroy: bool) -> (r: Vec<Vec<&'static str>>)
    ensures
        destroy ==> r@.len() == 2 && strs_view(r@[0]@) == seq!["init"@, "-input=false"@]
            && strs_view(r@[1]@) == seq!["destroy"@, "-input=false"@, "-auto-approve"@],
        !destroy ==> r@.len() == 3 && strs_view(r@[0]@) == seq!["init"@, "-input=false"@]
            && strs_view(r@[1]@) == seq!["plan"@, "-input=false"@, "-out=plan.tfplan"@]
            && strs_view(r@[2]@) == seq!["apply"@, "-input=false"@, "-auto-approve"@,
            "plan.tfplan"@],
{
    let mut commands: Vec<Vec<&'static str>> = Vec::new();
    let mut init: Vec<&'static str> = Vec::new();
    init.push("init");
    init.push("-input=false");
    assert(strs_view(init@) =~= seq!["init"@, "-input=false"@]);
    commands.push(init);
    if destroy {
        let mut destroy_cmd: Vec<&'static str> = Vec::new();
        destroy_cmd.push("destroy");
        destroy_cmd.push("-input=false");
        destroy_cmd.push("-auto-approve");
        assert(strs_view(destroy_cmd@) =~= seq!["destroy"@, "-input=false"@, "-auto-approve"@]);
        commands.push(destroy_cmd);
    } else {
        let mut plan_cmd: Vec<&'static str> = Vec::new();
        plan_cmd.push("plan");
        plan_cmd.push("-input=false");
        plan_cmd.push("-out=plan.tfplan");
        assert(strs_view(plan_cmd@) =~= seq!["plan"@, "-input=false"@, "-out=plan.tfplan"@]);
        commands.push(plan_cmd);
        let mut apply_cmd: Vec<&'static str> = Vec::new();
        apply_cmd.push("apply");
        apply_cmd.push("-input=false");
        apply_cmd.push("-auto-approve");
        apply_cmd.push("plan.tfplan");
        assert(strs_view(apply_cmd@) =~= seq!["apply"@, "-input=false"@, "-auto-approve"@,
            "plan.tfplan"@]);
        commands.push(apply_cmd);
    }
    commands
}

} // verus!
