//! The typed failures that every component of this crate returns instead of
//! panicking.

use vstd::prelude::*;
use crate::strutil::{concat2, concat3, concat5};
use vstd::string::StringExecFns;

verus! {

/// A typed failure of the bootstrap subsystem.
///
/// Every component returns one of these rather than exiting or panicking;
/// the top-level driver is the only place where a failure becomes a non-zero
/// exit path.
#[derive(Debug, Clone)]
pub enum BootstrapError {
    /// The network policy denied an outbound or listening operation.
    NetworkDenied(String),
    /// Fetched bytes did not hash to the digest they were advertised under.
    DigestMismatch { context: String, expected: String, actual: String },
    /// A pack path does not exist.
    NotFound(String),
    /// A pack path exists but is not a regular file.
    NotAFile(String),
    /// An OCI manifest declared no layers.
    NoLayers,
    /// A flow step kind outside the bootstrap allow-list.
    UnsupportedStep(String),
    /// A flow finished without any `installer_call` output.
    NoOutput,
    /// Flow bytes that do not decode to a bootstrap flow.
    InvalidFlow(String),
    /// An `installer_call` payload that does not decode to a bootstrap output.
    InvalidOutput(String),
    /// A blocking wait elapsed without an answer.
    Timeout(String),
    /// A question with no supplied answer and no default.
    MissingAnswer(String),
    /// An interactive prompt read an empty line for a question with no default.
    NoInput(String),
    /// A secret write that declared no concrete value.
    MissingValue(String),
    /// Upgrade preflight found no installed state.
    NotInstalled,
    /// Upgrade preflight found a state without a parsable version.
    MissingVersion(String),
    /// Upgrade preflight was handed a target version that does not parse.
    InvalidTargetVersion(String),
    /// Upgrade preflight rejected a target that is not strictly newer.
    NotNewer { current: String, target: String },
    /// A malformed configuration value, such as a secrets backend URI.
    Config(String),
    /// A malformed pack, reference, or manifest.
    Pack(String),
}

impl BootstrapError {
    /// A human-readable description, phrased as the surrounding tooling
    /// reports these failures.
    pub fn message(&self) -> String {
        match self {
            BootstrapError::NetworkDenied(reason) => reason.clone(),
            BootstrapError::DigestMismatch { context, expected, actual } => {
                let head = concat3(context.as_str(), " digest mismatch: expected ", expected.as_str());
                concat3(head.as_str(), ", got ", actual.as_str())
            },
            BootstrapError::NotFound(path) => concat3("pack ", path.as_str(), " does not exist"),
            BootstrapError::NotAFile(path) => concat3("pack ", path.as_str(), " is not a file"),
            BootstrapError::NoLayers => String::from_str(
                "oci manifest does not contain any layers",
            ),
            BootstrapError::UnsupportedStep(kind) => concat2(
                "not allowed in bootstrap mode: ",
                kind.as_str(),
            ),
            BootstrapError::NoOutput => String::from_str(
                "bootstrap flow produced no installer_call output",
            ),
            BootstrapError::InvalidFlow(detail) => concat2(
                "invalid ygtc format: ",
                detail.as_str(),
            ),
            BootstrapError::InvalidOutput(detail) => concat2(
                "invalid bootstrap output: ",
                detail.as_str(),
            ),
            BootstrapError::Timeout(detail) => detail.clone(),
            BootstrapError::MissingAnswer(id) => concat3(
                "missing answer for question '",
                id.as_str(),
                "'",
            ),
            BootstrapError::NoInput(id) => concat2("no input provided for ", id.as_str()),
            BootstrapError::MissingValue(key) => concat3(
                "secret write '",
                key.as_str(),
                "' missing value (installers must supply values in bootstrap mode)",
            ),
            BootstrapError::NotInstalled => String::from_str(
                "platform not installed; run platform install first",
            ),
            BootstrapError::MissingVersion(detail) => detail.clone(),
            BootstrapError::InvalidTargetVersion(target) => concat2(
                "upgrade target version does not parse: ",
                target.as_str(),
            ),
            BootstrapError::NotNewer { current, target } => concat5(
                "upgrade requires a newer pack version (current ",
                current.as_str(),
                ", requested ",
                target.as_str(),
                ")",
            ),
            BootstrapError::Config(detail) => concat2("configuration error: ", detail.as_str()),
            BootstrapError::Pack(detail) => concat2("pack parsing error: ", detail.as_str()),
        }
    }
}

} // verus!
