//! Content digests: SHA-256 in the `sha256:<hex>` notation that OCI
//! registries advertise, and the check of fetched bytes against an
//! advertised digest.

use vstd::prelude::*;
use crate::errors::BootstrapError;
use crate::strutil::{concat2, str_eq};
use vstd::string::StringExecFns;
use sha2::Digest;

verus! {

/// The lower-case hexadecimal SHA-256 digest of the bytes: a function of
/// the bytes alone.
pub uninterp spec fn sha256_hex_of(bytes: Seq<u8>) -> Seq<char>;

/// Relies on `sha2::Sha256` through the `Digest` trait: the digest depends
/// on the bytes alone.
#[verifier::external_body]
fn sha256_hex(bytes: &[u8]) -> (r: String)
    ensures
        r@ == sha256_hex_of(bytes@),
{
    let mut hasher = sha2::Sha256::new();
    hasher.update(bytes);
    let out = hasher.finalize();
    out.iter().map(|b| format!("{:02x}", b)).collect::<String>()
}

/// The digest notation under which bytes are addressed.
pub open spec fn spec_digest_string(bytes: Seq<u8>) -> Seq<char> {
    "sha256:"@ + sha256_hex_of(bytes)
}

/// Computes the `sha256:<hex>` digest string of the bytes.
pub fn sha256_digest_string(bytes: &[u8]) -> (r: String)
    ensures
        r@ == spec_digest_string(bytes@),
{
    let hex = sha256_hex(bytes);
    concat2("sha256:", hex.as_str())
}

/// Whether the advertised digest is the digest of the bytes.
pub open spec fn spec_digest_matches(expected: Seq<char>, bytes: Seq<u8>) -> bool {
    expected == spec_digest_string(bytes)
}

/// Checks bytes against an advertised digest; on a mismatch the error names
/// the context, the advertised digest and the computed one.
pub fn verify_digest(expected: &str, bytes: &[u8], context: &str) -> (r: Result<
    (),
    BootstrapError,
>)
    ensures
        r is Ok <==> spec_digest_matches(expected@, bytes@),
        r is Err ==> (r->Err_0 matches BootstrapError::DigestMismatch {
            context: c,
            expected: e,
            actual: a,
        } && c@ == context@ && e@ == expected@ && a@ == spec_digest_string(bytes@)),
{
    let computed = sha256_digest_string(bytes);
    if str_eq(expected, computed.as_str()) {
        Result::Ok(())
    } else {
        Result::Err(
            BootstrapError::DigestMismatch {
                context: String::from_str(context),
                expected: String::from_str(expected),
                actual: computed,
            },
        )
    }
}

} // verus!
