//! Realm measurements and how they are extended.
use crate::digest::{
    ring_sha256, ring_sha256_output_len, ring_sha512, ring_sha512_output_len, sha256, sha512,
};
use vstd::prelude::*;

verus! {

/// The width of a realm measurement in bytes.
pub const RMM_REALM_MEASUREMENT_WIDTH: usize = 64;

/// The hash algorithm of a realm's measurements.
#[derive(Debug, Clone, Copy, PartialEq, Eq, Structural)]
pub enum RmmHashAlgorithm {
    HashSha256,
    HashSha512,
}

impl RmmHashAlgorithm {
    /// The length of a digest in bytes.
    pub open spec fn size(self) -> nat {
        match self {
            RmmHashAlgorithm::HashSha256 => 32,
            RmmHashAlgorithm::HashSha512 => 64,
        }
    }

    /// The digest of a message.
    pub open spec fn digest_of(self, data: Seq<u8>) -> Seq<u8> {
        match self {
            RmmHashAlgorithm::HashSha256 => sha256(data),
            RmmHashAlgorithm::HashSha512 => sha512(data),
        }
    }

    /// The length of a digest in bytes.
    pub fn output_size(&self) -> (r: usize)
        ensures
            r == self.size(),
    {
        match self {
            RmmHashAlgorithm::HashSha256 => ring_sha256_output_len(),
            RmmHashAlgorithm::HashSha512 => ring_sha512_output_len(),
        }
    }

    fn digest(&self, data: &[u8]) -> (r: Vec<u8>)
        requires
            data@.len() <= 2 * RMM_REALM_MEASUREMENT_WIDTH,
        ensures
            r@ == self.digest_of(data@),
            r@.len() == self.size(),
    {
        match self {
            RmmHashAlgorithm::HashSha256 => ring_sha256(data),
            RmmHashAlgorithm::HashSha512 => ring_sha512(data),
        }
    }
}

/// A realm measurement: 64 bytes.
#[derive(Debug, Clone, Copy, PartialEq, Eq)]
pub struct RmmRealmMeasurement {
    data: [u8; RMM_REALM_MEASUREMENT_WIDTH],
}

/// The first 64 bytes of a byte string, filled up with zeros where it is shorter.
pub open spec fn padded(bytes: Seq<u8>) -> Seq<u8> {
    Seq::new(
        RMM_REALM_MEASUREMENT_WIDTH as nat,
        |i: int|
            if i < bytes.len() {
                bytes[i]
            } else {
                0u8
            },
    )
}

impl View for RmmRealmMeasurement {
    type V = Seq<u8>;

    closed spec fn view(&self) -> Seq<u8> {
        self.data@
    }
}

impl RmmRealmMeasurement {
    /// The initial measurement, all zeros.
    pub fn new() -> (r: Self)
        ensures
            r@ == padded(Seq::empty()),
    {
        let r = RmmRealmMeasurement { data: [0u8; RMM_REALM_MEASUREMENT_WIDTH] };
        assert(r@ =~= padded(Seq::empty()));
        r
    }

    /// The measurement made of 64 given bytes.
    pub fn from_bytes(bytes: &[u8]) -> (r: Self)
        requires
            bytes@.len() == RMM_REALM_MEASUREMENT_WIDTH,
        ensures
            r@ == bytes@,
    {
        let r = RmmRealmMeasurement::from_bytes_padded(bytes);
        assert(r@ =~= bytes@);
        r
    }

    /// The measurement made of the first 64 of the given bytes, filled up with zeros where there
    /// are fewer.
    pub fn from_bytes_padded(bytes: &[u8]) -> (r: Self)
        ensures
            r@ == padded(bytes@),
    {
        let mut data: [u8; RMM_REALM_MEASUREMENT_WIDTH] = [0u8; RMM_REALM_MEASUREMENT_WIDTH];
        let mut i: usize = 0;
        while i < RMM_REALM_MEASUREMENT_WIDTH && i < bytes.len()
            invariant
                i <= RMM_REALM_MEASUREMENT_WIDTH,
                i <= bytes@.len(),
                forall|k: int| 0 <= k < i ==> data@[k] == bytes@[k],
                forall|k: int| i <= k < RMM_REALM_MEASUREMENT_WIDTH ==> data@[k] == 0,
            decreases RMM_REALM_MEASUREMENT_WIDTH - i,
        {
            data[i] = bytes[i];
            i = i + 1;
        }
        let r = RmmRealmMeasurement { data };
        assert(r@ =~= padded(bytes@));
        r
    }

    /// The bytes of the measurement.
    pub fn as_bytes(&self) -> (r: &[u8; RMM_REALM_MEASUREMENT_WIDTH])
        ensures
            r@ == self@,
    {
        &self.data
    }

    /// The bytes of the measurement, to be changed.
    pub fn as_bytes_mut(&mut self) -> (r: &mut [u8; RMM_REALM_MEASUREMENT_WIDTH])
        ensures
            r@ == old(self)@,
            final(self)@ == final(r)@,
    {
        &mut self.data
    }
}

impl Default for RmmRealmMeasurement {
    fn default() -> (r: Self)
        ensures
            r@ == padded(Seq::empty()),
    {
        RmmRealmMeasurement::new()
    }
}

/// What is hashed when a measurement is extended by the first `size` bytes of a new value: as much
/// of the old measurement as a digest is long, and those bytes filled up with zeros to the width of
/// a measurement.
pub open spec fn extension_message(
    hash_algo: RmmHashAlgorithm,
    old_value: Seq<u8>,
    new_value: Seq<u8>,
    size: int,
) -> Seq<u8> {
    old_value.take(hash_algo.size() as int) + padded(new_value.take(size))
}

/// A measurement extended by the first `size` bytes of a new value: a digest, filled up with zeros.
pub open spec fn extended(
    hash_algo: RmmHashAlgorithm,
    old_value: Seq<u8>,
    new_value: Seq<u8>,
    size: int,
) -> Seq<u8> {
    padded(hash_algo.digest_of(extension_message(hash_algo, old_value, new_value, size)))
}

/// Extends a measurement by the first `size` bytes of a new value. The digest stands at the start of
/// the result, and what follows it is zero.
pub fn rem_extend(
    hash_algo: RmmHashAlgorithm,
    old_value: RmmRealmMeasurement,
    new_value: RmmRealmMeasurement,
    size: usize,
) -> (r: RmmRealmMeasurement)
    requires
        size <= RMM_REALM_MEASUREMENT_WIDTH,
    ensures
        r@ == extended(hash_algo, old_value@, new_value@, size as int),
        hash_algo.digest_of(
            extension_message(hash_algo, old_value@, new_value@, size as int),
        ).len() == hash_algo.size(),
        r@.take(hash_algo.size() as int) == hash_algo.digest_of(
            extension_message(hash_algo, old_value@, new_value@, size as int),
        ),
        forall|i: int| hash_algo.size() <= i < RMM_REALM_MEASUREMENT_WIDTH ==> r@[i] == 0,
{
    let kept: usize = hash_algo.output_size();
    let mut taken: Vec<u8> = Vec::new();
    crate::bytes::extend(&mut taken, new_value.as_bytes().as_slice(), 0, size);
    assert(taken@ =~= new_value@.take(size as int));
    let filled: RmmRealmMeasurement = RmmRealmMeasurement::from_bytes_padded(taken.as_slice());
    let mut message: Vec<u8> = Vec::new();
    crate::bytes::extend(&mut message, old_value.as_bytes().as_slice(), 0, kept);
    crate::bytes::extend(
        &mut message,
        filled.as_bytes().as_slice(),
        0,
        RMM_REALM_MEASUREMENT_WIDTH,
    );
    assert(message@ =~= extension_message(hash_algo, old_value@, new_value@, size as int));
    let digest: Vec<u8> = hash_algo.digest(message.as_slice());
    let r: RmmRealmMeasurement = RmmRealmMeasurement::from_bytes_padded(digest.as_slice());
    assert(r@.take(hash_algo.size() as int) =~= digest@);
    r
}

/// An extension depends on no more of the old measurement than a digest is long, and on no more
/// of the new value than the given size.
pub proof fn extension_ignores_the_rest(
    hash_algo: RmmHashAlgorithm,
    old_value: Seq<u8>,
    other_old: Seq<u8>,
    new_value: Seq<u8>,
    other_new: Seq<u8>,
    size: int,
)
    requires
        old_value.take(hash_algo.size() as int) == other_old.take(hash_algo.size() as int),
        new_value.take(size) == other_new.take(size),
    ensures
        extended(hash_algo, old_value, new_value, size) == extended(
            hash_algo,
            other_old,
            other_new,
            size,
        ),
{
}

/// Zeros at the end of a new value need not be taken: a value that is zero from `size` on extends a
/// measurement to the same as when all of it is taken.
pub proof fn extension_ignores_trailing_zeros(
    hash_algo: RmmHashAlgorithm,
    old_value: Seq<u8>,
    new_value: Seq<u8>,
    size: int,
)
    requires
        new_value.len() == RMM_REALM_MEASUREMENT_WIDTH,
        0 <= size <= RMM_REALM_MEASUREMENT_WIDTH,
        forall|i: int| size <= i < RMM_REALM_MEASUREMENT_WIDTH ==> new_value[i] == 0,
    ensures
        extended(hash_algo, old_value, new_value, size) == extended(
            hash_algo,
            old_value,
            new_value,
            RMM_REALM_MEASUREMENT_WIDTH as int,
        ),
{
    assert(padded(new_value.take(size)) =~= padded(
        new_value.take(RMM_REALM_MEASUREMENT_WIDTH as int),
    ));
}

/// A further extension hashes the whole digest of the extension before it: filling up and cutting
/// off lose nothing, where that digest has the length of the algorithm, as every extension gives.
pub proof fn extension_chains_digests(
    hash_algo: RmmHashAlgorithm,
    old_value: Seq<u8>,
    first: Seq<u8>,
    first_size: int,
    second: Seq<u8>,
    second_size: int,
)
    ensures
        ({
            let digest = hash_algo.digest_of(
                extension_message(hash_algo, old_value, first, first_size),
            );
            digest.len() == hash_algo.size() ==> extended(
                hash_algo,
                extended(hash_algo, old_value, first, first_size),
                second,
                second_size,
            ) == padded(hash_algo.digest_of(digest + padded(second.take(second_size))))
        }),
{
    let digest = hash_algo.digest_of(extension_message(hash_algo, old_value, first, first_size));
    if digest.len() == hash_algo.size() {
        assert(padded(digest).take(hash_algo.size() as int) =~= digest);
    }
}

/// A measurement of 64 bytes is not changed by filling up.
pub proof fn full_width_needs_no_padding(bytes: Seq<u8>)
    requires
        bytes.len() == RMM_REALM_MEASUREMENT_WIDTH,
    ensures
        padded(bytes) == bytes,
{
    assert(padded(bytes) =~= bytes);
}

/// Digests of a measurement are those of SHA-256 and SHA-512, with 32 and 64 bytes.
pub proof fn measurements_use_two_hash_functions(data: Seq<u8>)
    ensures
        RmmHashAlgorithm::HashSha256.size() == 32,
        RmmHashAlgorithm::HashSha512.size() == 64,
        RmmHashAlgorithm::HashSha256.digest_of(data) == sha256(data),
        RmmHashAlgorithm::HashSha512.digest_of(data) == sha512(data),
{
}

/// Filling up keeps the first 64 bytes and adds zeros up to that width.
pub proof fn padding_keeps_the_bytes(bytes: Seq<u8>)
    ensures
        padded(bytes).len() == 64,
        forall|i: int| 0 <= i < 64 && i < bytes.len() ==> #[trigger] padded(bytes)[i] == bytes[i],
        forall|i: int| bytes.len() <= i < 64 ==> #[trigger] padded(bytes)[i] == 0,
{
}

/// What is hashed when a measurement is extended is, byte by byte, the part of the old measurement
/// that is as long as a digest, the given number of bytes of the new value, and zeros up to 64 bytes
/// of new value.
pub proof fn extensions_hash_old_and_new(
    hash_algo: RmmHashAlgorithm,
    old_value: Seq<u8>,
    new_value: Seq<u8>,
    size: int,
)
    requires
        old_value.len() == 64,
        new_value.len() == 64,
        0 <= size <= 64,
    ensures
        ({
            let m = extension_message(hash_algo, old_value, new_value, size);
            let n = if hash_algo == RmmHashAlgorithm::HashSha256 {
                32int
            } else {
                64int
            };
            &&& m.len() == n + 64
            &&& forall|i: int| 0 <= i < n ==> #[trigger] m[i] == old_value[i]
            &&& forall|i: int| 0 <= i < size ==> #[trigger] m[n + i] == new_value[i]
            &&& forall|i: int| n + size <= i < n + 64 ==> #[trigger] m[i] == 0
            &&& hash_algo == RmmHashAlgorithm::HashSha256 ==> extended(
                hash_algo,
                old_value,
                new_value,
                size,
            ) == padded(sha256(m))
            &&& hash_algo == RmmHashAlgorithm::HashSha512 ==> extended(
                hash_algo,
                old_value,
                new_value,
                size,
            ) == padded(sha512(m))
        }),
{
}

} // verus!
