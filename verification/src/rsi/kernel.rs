//! What is exchanged with the kernel driver of the realm services interface.
use crate::bytes::{hex_encode, hex_text};
use crate::text::{concat, decimal, u64_to_text};
use vstd::prelude::*;

verus! {

/// The largest length of a measurement in bytes.
pub const MAX_MEASUR_LEN: u16 = 0x40;

/// The length of a challenge in bytes.
pub const CHALLENGE_LEN: u16 = 0x40;

/// The length of a granule in bytes.
pub const GRANULE_LEN: u16 = 0x1000;

/// The slot of the realm's initial measurement.
pub const RSI_RIM_INDEX: u32 = 0;

/// The slots of the realm's extensible measurements.
pub const RSI_REM0_INDEX: u32 = 1;

pub const RSI_REM1_INDEX: u32 = 2;

pub const RSI_REM2_INDEX: u32 = 3;

pub const RSI_REM3_INDEX: u32 = 4;

/// Derive the sealing key from what the firmware measures, rather than from who signed it.
pub const RSI_SEALING_KEY_FLAGS_KEY: u64 = 0x1;

/// Let the sealing key depend on the realm's initial measurement.
pub const RSI_SEALING_KEY_FLAGS_RIM: u64 = 0x2;

/// Let the sealing key depend on the realm's identifier.
pub const RSI_SEALING_KEY_FLAGS_REALM_ID: u64 = 0x4;

/// Let the sealing key depend on the realm's security version number.
pub const RSI_SEALING_KEY_FLAGS_SVN: u64 = 0x8;

/// All flags of a sealing key.
pub const RSI_SEALING_KEY_FLAGS_MASK: u64 = 0x0F;

/// Measurements are SHA-256 digests.
pub const RSI_HASH_SHA_256: u32 = 0;

/// Measurements are SHA-512 digests.
pub const RSI_HASH_SHA_512: u32 = 1;

/// A measurement and its slot.
#[derive(Debug, Clone, Copy, PartialEq, Eq)]
pub struct RsiMeasurement {
    pub index: u32,
    pub data_len: u32,
    pub data: [u8; 64],
}

impl RsiMeasurement {
    /// A measurement to be read out of a slot.
    pub fn new_empty(index: u32) -> (r: Self)
        ensures
            r.index == index,
            r.data_len == 0,
            r.data@ == Seq::new(64, |i: int| 0u8),
    {
        let r = RsiMeasurement { index, data_len: 0, data: [0u8; 64] };
        assert(r.data@ =~= Seq::new(64, |i: int| 0u8));
        r
    }

    /// A measurement to extend a slot by.
    pub fn new_from_data(index: u32, src: &[u8]) -> (r: Self)
        requires
            0 < src@.len() <= MAX_MEASUR_LEN,
        ensures
            r.index == index,
            r.data_len == src@.len(),
            r.data@ == src@ + Seq::new((64 - src@.len()) as nat, |i: int| 0u8),
    {
        let mut data: [u8; 64] = [0u8; 64];
        let mut i: usize = 0;
        while i < src.len()
            invariant
                i <= src@.len() <= 64,
                forall|k: int| 0 <= k < i ==> data@[k] == src@[k],
                forall|k: int| i <= k < 64 ==> data@[k] == 0,
            decreases src@.len() - i,
        {
            data[i] = src[i];
            i = i + 1;
        }
        assert(data@ =~= src@ + Seq::new((64 - src@.len()) as nat, |i: int| 0u8));
        RsiMeasurement { index, data_len: src.len() as u32, data }
    }
}

/// A request for an attestation token.
#[derive(Debug, Clone, Copy, PartialEq, Eq)]
pub struct RsiAttestation {
    pub challenge: [u8; 64],
    /// How many bytes the token may have.
    pub token_len: u64,
}

impl RsiAttestation {
    /// A request for a token that answers the challenge.
    pub fn new(src: &[u8; 64], token_len: u64) -> (r: Self)
        ensures
            r.challenge@ == src@,
            r.token_len == token_len,
    {
        RsiAttestation { challenge: *src, token_len }
    }
}

/// A request for a sealing key.
#[derive(Debug, Clone, Copy, PartialEq, Eq)]
pub struct RsiSealingKey {
    pub flags: u64,
    /// The security version number.
    pub svn: u64,
    pub realm_sealing_key: [u8; 32],
}

impl RsiSealingKey {
    /// A request with those of the flags that exist, the lowest four bits.
    pub fn new(flags: u64, svn: u64) -> (r: Self)
        ensures
            r.flags == flags % 16,
            r.svn == svn,
            r.realm_sealing_key@ == Seq::new(32, |i: int| 0u8),
    {
        assert(flags & 0x0F == flags % 16) by (bit_vector);
        let r = RsiSealingKey {
            flags: flags & RSI_SEALING_KEY_FLAGS_MASK,
            svn,
            realm_sealing_key: [0u8; 32],
        };
        assert(r.realm_sealing_key@ =~= Seq::new(32, |i: int| 0u8));
        r
    }
}

/// The configuration of a realm.
#[derive(Debug, Clone, Copy, PartialEq, Eq)]
pub struct RsiRealmConfig {
    /// The width of an intermediate physical address in bits.
    pub ipa_bits: u32,
    /// The hash algorithm of measurements.
    pub hash_algo: u32,
    /// The personalization value.
    pub rpv: [u8; 64],
}

impl Default for RsiRealmConfig {
    fn default() -> (r: Self)
        ensures
            r.ipa_bits == 0,
            r.hash_algo == 0,
            r.rpv@ == Seq::new(64, |i: int| 0u8),
    {
        let r = RsiRealmConfig { ipa_bits: 0, hash_algo: 0, rpv: [0u8; 64] };
        assert(r.rpv@ =~= Seq::new(64, |i: int| 0u8));
        r
    }
}

/// The name of a hash algorithm.
pub open spec fn hash_algo_name(hash_algo: u32) -> Seq<char> {
    if hash_algo == RSI_HASH_SHA_256 {
        "sha256"@
    } else if hash_algo == RSI_HASH_SHA_512 {
        "sha512"@
    } else {
        "unknown"@
    }
}

impl RsiRealmConfig {
    /// The configuration in words.
    pub fn describe(&self) -> (r: String)
        ensures
            r@ == "ipa_bits: "@ + decimal(self.ipa_bits as nat) + " hash_algo: "@
                + hash_algo_name(self.hash_algo) + " rpv: "@ + hex_text(self.rpv@),
    {
        let bits: String = u64_to_text(self.ipa_bits as u64);
        let mut s: String = concat("ipa_bits: ", bits.as_str());
        s.append(" hash_algo: ");
        s.append(
            if self.hash_algo == RSI_HASH_SHA_256 {
                "sha256"
            } else if self.hash_algo == RSI_HASH_SHA_512 {
                "sha512"
            } else {
                "unknown"
            },
        );
        s.append(" rpv: ");
        let rpv: String = hex_encode(self.rpv.as_slice());
        s.append(rpv.as_str());
        s
    }
}

/// The major part of an interface version: bits 16 to 30.
pub fn abi_version_get_major(version: u64) -> (r: u32)
    ensures
        r == version / 0x1_0000 % 0x8000,
{
    assert((version & 0x7FFF0000) >> 16 == version / 0x1_0000 % 0x8000) by (bit_vector);
    ((version & 0x7FFF0000) >> 16) as u32
}

/// The minor part of an interface version: bits 0 to 15.
pub fn abi_version_get_minor(version: u64) -> (r: u32)
    ensures
        r == version % 0x1_0000,
{
    assert(version & 0xFFFF == version % 0x1_0000) by (bit_vector);
    (version & 0xFFFF) as u32
}

/// An interface version is made of its two parts, up to the bits above them.
pub proof fn version_is_major_and_minor(version: u64)
    ensures
        version % 0x8000_0000 == (version / 0x1_0000 % 0x8000) * 0x1_0000 + version % 0x1_0000,
{
}

/// Two hash algorithms are known by name; the number of any other has none.
pub proof fn hash_algorithms_are_named(hash_algo: u32)
    ensures
        hash_algo == 0 ==> hash_algo_name(hash_algo) == "sha256"@,
        hash_algo == 1 ==> hash_algo_name(hash_algo) == "sha512"@,
        hash_algo > 1 ==> hash_algo_name(hash_algo) == "unknown"@,
{
}

} // verus!
