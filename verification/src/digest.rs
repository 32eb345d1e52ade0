//! Secure hash functions.
use vstd::prelude::*;

verus! {

/// The number of bytes from which on a message is too long to be hashed.
pub const MESSAGE_LIMIT: u64 = 0x2000_0000_0000_0000;

/// The SHA-256 digest of a message, as `ring` computes it.
pub uninterp spec fn sha256(data: Seq<u8>) -> Seq<u8>;

/// The SHA-384 digest of a message, as `ring` computes it.
pub uninterp spec fn sha384(data: Seq<u8>) -> Seq<u8>;

/// The SHA-512 digest of a message, as `ring` computes it.
pub uninterp spec fn sha512(data: Seq<u8>) -> Seq<u8>;

/// `ring::digest::digest` with SHA-256: a digest of 32 bytes. A message whose length in bits does
/// not fit in 64 bits is refused by a panic.
#[verifier::external_body]
pub(crate) fn ring_sha256(data: &[u8]) -> (r: Vec<u8>)
    requires
        data@.len() < MESSAGE_LIMIT,
    ensures
        r@ == sha256(data@),
        r@.len() == 32,
{
    ring::digest::digest(&ring::digest::SHA256, data).as_ref().to_vec()
}

/// `ring::digest::digest` with SHA-384: a digest of 48 bytes. A message whose length in bits does
/// not fit in 64 bits is refused by a panic.
#[verifier::external_body]
pub(crate) fn ring_sha384(data: &[u8]) -> (r: Vec<u8>)
    requires
        data@.len() < MESSAGE_LIMIT,
    ensures
        r@ == sha384(data@),
        r@.len() == 48,
{
    ring::digest::digest(&ring::digest::SHA384, data).as_ref().to_vec()
}

/// `ring::digest::digest` with SHA-512: a digest of 64 bytes. A message whose length in bits does
/// not fit in 64 bits is refused by a panic.
#[verifier::external_body]
pub(crate) fn ring_sha512(data: &[u8]) -> (r: Vec<u8>)
    requires
        data@.len() < MESSAGE_LIMIT,
    ensures
        r@ == sha512(data@),
        r@.len() == 64,
{
    ring::digest::digest(&ring::digest::SHA512, data).as_ref().to_vec()
}

/// `ring::digest::Algorithm::output_len` of SHA-256.
#[verifier::external_body]
pub(crate) fn ring_sha256_output_len() -> (r: usize)
    ensures
        r == 32,
{
    ring::digest::SHA256.output_len()
}

/// `ring::digest::Algorithm::output_len` of SHA-512.
#[verifier::external_body]
pub(crate) fn ring_sha512_output_len() -> (r: usize)
    ensures
        r == 64,
{
    ring::digest::SHA512.output_len()
}

} // verus!
