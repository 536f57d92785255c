//! Checksums of downloaded artifacts.

use vstd::prelude::*;
use crate::error::{result_view, HomebinError, HomebinErrorView};
use crate::tools::bytes_equal;

verus! {

/// The SHA-256 digest of `data`, as `sha2::Sha256::digest` computes it.
pub uninterp spec fn sha256_digest(data: Seq<u8>) -> Seq<u8>;

/// Calls `sha2::Sha256::digest` on `data` and copies the digest out.
///
/// Trusted: the result is what [`sha256_digest`] names.
#[verifier::external_body]
fn sha256(data: &[u8]) -> (digest: Vec<u8>)
    ensures
        digest@ == sha256_digest(data@),
{
    <sha2::Sha256 as sha2::Digest>::digest(data).to_vec()
}

/// The checksum that a manifest declares for an artifact.
#[derive(Debug, PartialEq, Eq)]
pub struct Checksum {
    /// The SHA-256 digest of the artifact.
    pub sha256: Vec<u8>,
}

impl View for Checksum {
    type V = Seq<u8>;

    /// The declared digest.
    open spec fn view(&self) -> Seq<u8> {
        self.sha256@
    }
}

impl Clone for Checksum {
    fn clone(&self) -> (copy: Checksum)
        ensures
            copy@ == self@,
    {
        Checksum { sha256: self.sha256.clone() }
    }
}

/// What comparing the digest `actual` of an artifact with the declared digest
/// `expected` gives: nothing if they are the same, and else the mismatch with
/// both digests.
pub open spec fn compare_digest_spec(expected: Seq<u8>, actual: Seq<u8>) -> Result<(), HomebinErrorView> {
    if actual == expected {
        Ok(())
    } else {
        Err(HomebinErrorView::ChecksumMismatch { expected, actual })
    }
}

impl Checksum {
    /// Compares the digest `actual` of an artifact with this checksum, byte
    /// for byte.
    pub fn compare_digest(&self, actual: Vec<u8>) -> (result: Result<(), HomebinError>)
        ensures
            result_view(result) == compare_digest_spec(self@, actual@),
    {
        if bytes_equal(actual.as_slice(), self.sha256.as_slice()) {
            Ok(())
        } else {
            Err(HomebinError::ChecksumMismatch { expected: self.sha256.clone(), actual })
        }
    }

    /// Validates `content` against this checksum: computes the digest of the
    /// whole of `content` and compares it with the declared one.
    pub fn validate(&self, content: &[u8]) -> (result: Result<(), HomebinError>)
        ensures
            result_view(result) == compare_digest_spec(self@, sha256_digest(content@)),
    {
        self.compare_digest(sha256(content))
    }
}

} // verus!
