//! The input files a capability job declares: each is recorded with the
//! SHA-256 of its content when the job is built, and checked against that
//! record just before the job runs, so a file changed in between is never
//! handed to a capability.
//!
//! Reading the files is the host's; the record and the check are here.

use sha2::Digest;
use vstd::prelude::*;

use crate::capability::abi::CapabilityInputFile;
use crate::text::{concat2, str_eq};

verus! {

/// The lower-case hexadecimal SHA-256 digest of `bytes`.
pub uninterp spec fn sha256_hex_of(bytes: Seq<u8>) -> Seq<char>;

/// `sha2::Sha256::digest` of `bytes`, written with `{:x}`: the digest as
/// lower-case hexadecimal. Claimed: the text is a function of the bytes
/// alone, named `sha256_hex_of`.
#[verifier::external_body]
fn sha256_hex(bytes: &[u8]) -> (r: String)
    ensures
        r@ == sha256_hex_of(bytes@),
{
    format!("{:x}", sha2::Sha256::digest(bytes))
}

/// The record of an input file read at `path` with content `bytes`: its
/// path, the digest of its content and its size.
pub fn input_file_record(path: String, bytes: &[u8]) -> (r: CapabilityInputFile)
    ensures
        r.path == path,
        r.sha256 matches Some(h) && h@ == sha256_hex_of(bytes@),
        r.size == Some(bytes@.len() as u64),
{
    let sha256 = sha256_hex(bytes);
    CapabilityInputFile { path, sha256: Some(sha256), size: Some(bytes.len() as u64) }
}

/// Whether an input file still has the content it was recorded with: a
/// recorded digest that differs from the digest of `bytes`, the content
/// now, refuses the job. A file recorded without a digest is not checked.
pub fn check_input_hash(input: &CapabilityInputFile, bytes: &[u8]) -> (r: Result<(), String>)
    ensures
        match input.sha256 {
            Some(h) => if h@ == sha256_hex_of(bytes@) {
                r is Ok
            } else {
                r matches Err(e) && e@ == "input hash changed before execution: "@ + input.path@
            },
            None => r is Ok,
        },
{
    match &input.sha256 {
        None => Ok(()),
        Some(recorded) => {
            let now = sha256_hex(bytes);
            if str_eq(recorded.as_str(), now.as_str()) {
                Ok(())
            } else {
                Err(concat2("input hash changed before execution: ", input.path.as_str()))
            }
        },
    }
}

} // verus!
