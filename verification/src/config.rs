//! Plain configuration kinds: the action, provider, output format,
//! interaction mode and state backend a run is configured with.  Parsing
//! command-line text into these is the surrounding tooling's job; here they
//! are data.

use vstd::prelude::*;

verus! {

/// Available actions.
#[derive(Debug, Clone, Copy, PartialEq, Eq, Structural)]
pub enum Action {
    Plan,
    Apply,
    Destroy,
}

impl Action {
    pub fn as_str(&self) -> (r: &'static str)
        ensures
            (*self is Plan ==> r@ == "plan"@) && (*self is Apply ==> r@ == "apply"@) && (*self
                is Destroy ==> r@ == "destroy"@),
    {
        match self {
            Action::Plan => "plan",
            Action::Apply => "apply",
            Action::Destroy => "destroy",
        }
    }
}

/// Supported deployment targets.
#[derive(Debug, Clone, Copy, PartialEq, Eq, Structural)]
pub enum Provider {
    Local,
    Aws,
    Azure,
    Gcp,
    K8s,
}

impl Provider {
    pub fn as_str(&self) -> (r: &'static str)
        ensures
            (*self is Local ==> r@ == "local"@) && (*self is Aws ==> r@ == "aws"@) && (*self
                is Azure ==> r@ == "azure"@) && (*self is Gcp ==> r@ == "gcp"@) && (*self is K8s
                ==> r@ == "k8s"@),
    {
        match self {
            Provider::Local => "local",
            Provider::Aws => "aws",
            Provider::Azure => "azure",
            Provider::Gcp => "gcp",
            Provider::K8s => "k8s",
        }
    }
}

/// Output format for rendered summaries.
#[derive(Debug, Clone, Copy, PartialEq, Eq, Structural)]
pub enum OutputFormat {
    Text,
    Json,
    Yaml,
}

impl Default for OutputFormat {
    fn default() -> (r: Self)
        ensures
            r is Text,
    {
        OutputFormat::Text
    }
}

/// How the bootstrap flow asks its questions.
#[derive(Debug, Clone, Copy, PartialEq, Eq, Structural)]
pub enum InteractionMode {
    Auto,
    Cli,
    Json,
    Http,
    Mqtt,
}

/// Where the bootstrap state record is persisted.
#[derive(Debug, Clone, Copy, PartialEq, Eq, Structural)]
pub enum BootstrapStateBackend {
    File,
    K8s,
}

} // verus!
