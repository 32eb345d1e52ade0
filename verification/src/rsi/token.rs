//! Claims of attestation tokens, and what can be wrong with a token.
use std::collections::BTreeMap;
use vstd::prelude::*;

verus! {

/// How many extensible measurements a realm has.
pub const CLAIM_COUNT_REALM_EXTENSIBLE_MEASUREMENTS: usize = 4;

/// Claims of a realm token.
pub const CCA_REALM_CHALLENGE: u32 = 10;

pub const CCA_REALM_PROFILE: u32 = 265;

pub const CCA_REALM_PERSONALIZATION_VALUE: u32 = 44235;

pub const CCA_REALM_HASH_ALGO_ID: u32 = 44236;

pub const CCA_REALM_PUB_KEY: u32 = 44237;

pub const CCA_REALM_INITIAL_MEASUREMENT: u32 = 44238;

pub const CCA_REALM_PUB_KEY_HASH_ALGO_ID: u32 = 44240;

/// Claims of a platform token.
pub const CCA_PLAT_CHALLENGE: u32 = 10;

pub const CCA_PLAT_INSTANCE_ID: u32 = 256;

pub const CCA_PLAT_PROFILE: u32 = 265;

pub const CCA_PLAT_SECURITY_LIFECYCLE: u32 = 2395;

pub const CCA_PLAT_IMPLEMENTATION_ID: u32 = 2396;

pub const CCA_PLAT_VERIFICATION_SERVICE: u32 = 2400;

pub const CCA_PLAT_CONFIGURATION: u32 = 2401;

pub const CCA_PLAT_HASH_ALGO_ID: u32 = 2402;

/// Claims of a software component.
pub const CCA_SW_COMP_TITLE: u32 = 1;

pub const CCA_SW_COMP_MEASUREMENT_VALUE: u32 = 2;

pub const CCA_SW_COMP_VERSION: u32 = 4;

pub const CCA_SW_COMP_SIGNER_ID: u32 = 5;

pub const CCA_SW_COMP_HASH_ALGORITHM: u32 = 6;

/// The value of a claim.
#[derive(Debug)]
pub enum ClaimData {
    Int64(i64),
    Bool(bool),
    Bstr(Vec<u8>),
    Text(String),
}

/// A claim.
#[derive(Debug)]
pub struct Claim {
    pub data: ClaimData,
}

/// Claims by their keys.
pub type ClaimsMap = BTreeMap<u32, Claim>;

/// The algorithm of a signature, as a message names it.
#[derive(Debug, PartialEq, Eq)]
pub enum CoseAlgorithm {
    /// A registered algorithm, by its number.
    Assigned(i64),
    /// An algorithm for private use, by its number.
    PrivateUse(i64),
    /// An algorithm that has a name in place of a number.
    Text(String),
}

impl Clone for CoseAlgorithm {
    fn clone(&self) -> (r: Self)
        ensures
            r == *self,
    {
        match self {
            CoseAlgorithm::Assigned(n) => CoseAlgorithm::Assigned(*n),
            CoseAlgorithm::PrivateUse(n) => CoseAlgorithm::PrivateUse(*n),
            CoseAlgorithm::Text(name) => CoseAlgorithm::Text(name.clone()),
        }
    }
}

/// What is wrong with a public key.
#[derive(Debug, Clone, Copy, PartialEq, Eq, Structural)]
pub enum KeyFault {
    /// A coordinate on the curve P-256 is not 32 bytes long.
    P256Length,
    /// A coordinate on the curve P-384 is not 48 bytes long.
    P384Length,
    /// The curve is neither P-256 nor P-384.
    UnknownCurve,
}

/// What did not hold of a token.
#[derive(Debug, Clone, Copy, PartialEq, Eq, Structural)]
pub enum Mismatch {
    /// The key is for another signature algorithm than the message's.
    KeyAlgorithm,
    /// The signature on the curve P-256 is not valid.
    P256Signature,
    /// The signature on the curve P-384 is not valid.
    P384Signature,
    /// The challenge is not the digest of the data.
    Challenge,
}

/// What is wrong with a token.
#[derive(Debug, PartialEq, Eq)]
pub enum TokenError {
    /// The hash algorithm is unknown.
    InvalidTokenFormat,
    /// The claim with the given key is missing.
    MissingPlatSwClaim(u32),
    /// A claim has a value of another type.
    ClaimDataMismatch,
    /// The key is not encoded in CBOR.
    Cbor,
    /// The key is not a COSE key.
    Cose,
    /// The key cannot be used.
    InvalidKey(KeyFault),
    /// The message names no algorithm, or one that is not supported.
    InvalidAlgorithm(Option<CoseAlgorithm>),
    /// Something did not verify.
    VerificationFailed(Mismatch),
    /// Signatures on the curve P-521 are not supported.
    NotImplemented,
}

} // verus!
