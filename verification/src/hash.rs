//! SHA3-256.
use sha3::Digest;
use vstd::prelude::*;

verus! {

/// The SHA3-256 digest of `data`.
pub uninterp spec fn sha3_256(data: Seq<u8>) -> [u8; 32];

/// `sha3::Sha3_256::digest`: the digest is a function of the bytes alone.
#[verifier::external_body]
pub(crate) fn sha3_256_digest(data: &[u8]) -> (out: [u8; 32])
    ensures
        out == sha3_256(data@),
{
    sha3::Sha3_256::digest(data).into()
}

} // verus!
