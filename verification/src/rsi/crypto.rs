//! Signatures and digests of attestation tokens.
use crate::bytes::{be16, be32, bytes_eq, extend};
use crate::digest::{ring_sha256, ring_sha384, ring_sha512, sha256, sha384, sha512, MESSAGE_LIMIT};
use crate::rsi::token::{CoseAlgorithm, KeyFault, Mismatch, TokenError};
use crate::text::str_eq;
use vstd::prelude::*;

verus! {

/// The registered numbers of the signature algorithms.
pub const COSE_ALGORITHM_ES256: i64 = -7;

pub const COSE_ALGORITHM_ES384: i64 = -35;

pub const COSE_ALGORITHM_ES512: i64 = -36;

/// The registered labels of the parameters of an elliptic curve key.
pub const COSE_EC2_ALGORITHM_LABEL: i64 = -1;

pub const COSE_EC2_KEY_PARAM_X_LABEL: i64 = -2;

pub const COSE_EC2_KEY_PARAM_Y_LABEL: i64 = -3;

/// The registered numbers of the elliptic curves.
pub const COSE_CURVE_P_256: i128 = 1;

pub const COSE_CURVE_P_384: i128 = 2;

/// A signature algorithm, with its hash algorithm and its curve.
#[derive(Debug, Clone, Copy, PartialEq, Eq, Structural)]
pub enum SigningAlgorithm {
    /// SHA-256 and P-256.
    ES256,
    /// SHA-384 and P-384.
    ES384,
    /// SHA-512 and P-521.
    ES512,
}

/// The signature algorithm that a message names.
pub open spec fn algorithm_of(alg: CoseAlgorithm) -> Option<SigningAlgorithm> {
    if alg == CoseAlgorithm::Assigned(COSE_ALGORITHM_ES256) {
        Some(SigningAlgorithm::ES256)
    } else if alg == CoseAlgorithm::Assigned(COSE_ALGORITHM_ES384) {
        Some(SigningAlgorithm::ES384)
    } else if alg == CoseAlgorithm::Assigned(COSE_ALGORITHM_ES512) {
        Some(SigningAlgorithm::ES512)
    } else {
        None
    }
}

/// The signature algorithm whose hash algorithm has the given name.
pub open spec fn algorithm_of_hash(name: Seq<char>) -> Option<SigningAlgorithm> {
    if name == "sha-256"@ {
        Some(SigningAlgorithm::ES256)
    } else if name == "sha-384"@ {
        Some(SigningAlgorithm::ES384)
    } else if name == "sha-512"@ {
        Some(SigningAlgorithm::ES512)
    } else {
        None
    }
}

impl SigningAlgorithm {
    /// The signature algorithm that a message names.
    pub fn from_cose(alg: CoseAlgorithm) -> (r: Result<SigningAlgorithm, TokenError>)
        ensures
            match r {
                Ok(a) => algorithm_of(alg) == Some(a),
                Err(e) => algorithm_of(alg) is None && e == TokenError::InvalidAlgorithm(
                    Some(alg),
                ),
            },
    {
        match alg {
            CoseAlgorithm::Assigned(n) => {
                if n == COSE_ALGORITHM_ES256 {
                    Ok(SigningAlgorithm::ES256)
                } else if n == COSE_ALGORITHM_ES384 {
                    Ok(SigningAlgorithm::ES384)
                } else if n == COSE_ALGORITHM_ES512 {
                    Ok(SigningAlgorithm::ES512)
                } else {
                    Err(TokenError::InvalidAlgorithm(Some(CoseAlgorithm::Assigned(n))))
                }
            },
            alg => Err(TokenError::InvalidAlgorithm(Some(alg))),
        }
    }

    /// The signature algorithm whose hash algorithm has the given name.
    pub fn from_hash_name(alg: &str) -> (r: Result<SigningAlgorithm, TokenError>)
        ensures
            match r {
                Ok(a) => algorithm_of_hash(alg@) == Some(a),
                Err(e) => algorithm_of_hash(alg@) is None && e == TokenError::InvalidTokenFormat,
            },
    {
        if str_eq(alg, "sha-256") {
            Ok(SigningAlgorithm::ES256)
        } else if str_eq(alg, "sha-384") {
            Ok(SigningAlgorithm::ES384)
        } else if str_eq(alg, "sha-512") {
            Ok(SigningAlgorithm::ES512)
        } else {
            Err(TokenError::InvalidTokenFormat)
        }
    }
}

// ---------------------------------------------------------------------------
// Public keys
// ---------------------------------------------------------------------------

/// The value of a key's parameter, as far as it matters here.
#[derive(Debug)]
pub enum KeyValue {
    Bytes(Vec<u8>),
    Integer(i128),
    Other,
}

/// A parameter of a key; one without a number as its label has `None` there.
#[derive(Debug)]
pub struct KeyParam {
    pub label: Option<i64>,
    pub value: KeyValue,
}

/// What the value of a key's parameter is.
pub enum CoseValue {
    Bytes(Seq<u8>),
    Integer(i128),
    Other,
}

/// What a key's parameter is.
pub struct CoseParam {
    pub label: Option<i64>,
    pub value: CoseValue,
}

impl View for KeyParam {
    type V = CoseParam;

    open spec fn view(&self) -> CoseParam {
        CoseParam {
            label: self.label,
            value: match self.value {
                KeyValue::Bytes(b) => CoseValue::Bytes(b@),
                KeyValue::Integer(n) => CoseValue::Integer(n),
                KeyValue::Other => CoseValue::Other,
            },
        }
    }
}

/// What a list of parameters is.
pub open spec fn params_view(params: Seq<KeyParam>) -> Seq<CoseParam> {
    params.map_values(|p: KeyParam| p@)
}

/// The algorithm that the last of the parameters that name a known curve stands for.
pub open spec fn curve_of(params: Seq<CoseParam>) -> Option<SigningAlgorithm>
    decreases params.len(),
{
    if params.len() == 0 {
        None
    } else {
        let p = params.last();
        if p.label == Some(COSE_EC2_ALGORITHM_LABEL) && p.value == CoseValue::Integer(
            COSE_CURVE_P_256,
        ) {
            Some(SigningAlgorithm::ES256)
        } else if p.label == Some(COSE_EC2_ALGORITHM_LABEL) && p.value == CoseValue::Integer(
            COSE_CURVE_P_384,
        ) {
            Some(SigningAlgorithm::ES384)
        } else {
            curve_of(params.drop_last())
        }
    }
}

/// The bytes of the last parameter with the given label that has any; none where there is no such
/// parameter.
pub open spec fn bytes_of(params: Seq<CoseParam>, label: i64) -> Seq<u8>
    decreases params.len(),
{
    if params.len() == 0 {
        Seq::empty()
    } else if params.last().label == Some(label) && params.last().value is Bytes {
        params.last().value->Bytes_0
    } else {
        bytes_of(params.drop_last(), label)
    }
}

/// The uncompressed form of a public key and the algorithm that it is for: a byte 4 and the two
/// coordinates, whose lengths have to fit the curve.
pub open spec fn uncompressed_key(params: Seq<CoseParam>) -> Result<
    (Seq<u8>, SigningAlgorithm),
    TokenError,
> {
    let x = bytes_of(params, COSE_EC2_KEY_PARAM_X_LABEL);
    let y = bytes_of(params, COSE_EC2_KEY_PARAM_Y_LABEL);
    match curve_of(params) {
        Some(SigningAlgorithm::ES256) => if x.len() == 32 && y.len() == 32 {
            Ok((seq![4u8] + x + y, SigningAlgorithm::ES256))
        } else {
            Err(TokenError::InvalidKey(KeyFault::P256Length))
        },
        Some(SigningAlgorithm::ES384) => if x.len() == 48 && y.len() == 48 {
            Ok((seq![4u8] + x + y, SigningAlgorithm::ES384))
        } else {
            Err(TokenError::InvalidKey(KeyFault::P384Length))
        },
        _ => Err(TokenError::InvalidKey(KeyFault::UnknownCurve)),
    }
}

/// The uncompressed form of a public key, and the algorithm that it is for.
pub fn get_uncompressed_public_key_from_cosekey(params: &Vec<KeyParam>) -> (r: Result<
    (Vec<u8>, SigningAlgorithm),
    TokenError,
>)
    ensures
        match r {
            Ok(k) => uncompressed_key(params_view(params@)) == Ok::<_, TokenError>((k.0@, k.1)),
            Err(e) => uncompressed_key(params_view(params@)) == Err::<
                (Seq<u8>, SigningAlgorithm),
                _,
            >(e),
        },
{
    let ghost view = params_view(params@);
    let mut x: Vec<u8> = Vec::new();
    let mut y: Vec<u8> = Vec::new();
    let mut algorithm: Option<SigningAlgorithm> = None;
    let mut i: usize = 0;
    while i < params.len()
        invariant
            i <= params@.len(),
            view == params_view(params@),
            algorithm == curve_of(view.take(i as int)),
            x@ == bytes_of(view.take(i as int), COSE_EC2_KEY_PARAM_X_LABEL),
            y@ == bytes_of(view.take(i as int), COSE_EC2_KEY_PARAM_Y_LABEL),
        decreases params@.len() - i,
    {
        let ghost next = view.take(i + 1);
        assert(next.drop_last() =~= view.take(i as int));
        assert(next.last() == params@[i as int]@);
        let param: &KeyParam = &params[i];
        match param.label {
            Some(label) => match &param.value {
                KeyValue::Integer(n) => {
                    if label == COSE_EC2_ALGORITHM_LABEL {
                        if *n == COSE_CURVE_P_256 {
                            algorithm = Some(SigningAlgorithm::ES256);
                        } else if *n == COSE_CURVE_P_384 {
                            algorithm = Some(SigningAlgorithm::ES384);
                        }
                    }
                },
                KeyValue::Bytes(b) => {
                    if label == COSE_EC2_KEY_PARAM_X_LABEL {
                        x = vstd::slice::slice_to_vec(b.as_slice());
                    } else if label == COSE_EC2_KEY_PARAM_Y_LABEL {
                        y = vstd::slice::slice_to_vec(b.as_slice());
                    }
                },
                KeyValue::Other => {},
            },
            None => {},
        }
        i = i + 1;
    }
    assert(view.take(view.len() as int) =~= view);
    let alg: SigningAlgorithm = match algorithm {
        Some(SigningAlgorithm::ES256) => {
            if x.len() != 32 || y.len() != 32 {
                return Err(TokenError::InvalidKey(KeyFault::P256Length));
            }
            SigningAlgorithm::ES256
        },
        Some(SigningAlgorithm::ES384) => {
            if x.len() != 48 || y.len() != 48 {
                return Err(TokenError::InvalidKey(KeyFault::P384Length));
            }
            SigningAlgorithm::ES384
        },
        _ => {
            return Err(TokenError::InvalidKey(KeyFault::UnknownCurve));
        },
    };
    let mut key: Vec<u8> = Vec::new();
    key.push(4u8);
    extend(&mut key, x.as_slice(), 0, x.len());
    extend(&mut key, y.as_slice(), 0, y.len());
    assert(key@ =~= seq![4u8] + x@ + y@);
    Ok((key, alg))
}

/// The key in uncompressed form, where it is for the given algorithm.
pub open spec fn key_for(algorithm: SigningAlgorithm, params: Seq<CoseParam>) -> Result<
    Seq<u8>,
    TokenError,
> {
    match uncompressed_key(params) {
        Ok(k) => if k.1 == algorithm {
            Ok(k.0)
        } else {
            Err(TokenError::VerificationFailed(Mismatch::KeyAlgorithm))
        },
        Err(e) => Err(e),
    }
}

/// The key that verifies signatures of the given algorithm, in uncompressed form.
pub fn verification_key(algorithm: SigningAlgorithm, params: &Vec<KeyParam>) -> (r: Result<
    Vec<u8>,
    TokenError,
>)
    ensures
        match r {
            Ok(k) => key_for(algorithm, params_view(params@)) == Ok::<Seq<u8>, TokenError>(k@),
            Err(e) => key_for(algorithm, params_view(params@)) == Err::<Seq<u8>, TokenError>(e),
        },
{
    match get_uncompressed_public_key_from_cosekey(params) {
        Ok((key, alg)) => {
            if alg != algorithm {
                return Err(TokenError::VerificationFailed(Mismatch::KeyAlgorithm));
            }
            Ok(key)
        },
        Err(e) => Err(e),
    }
}

/// The parameters of a COSE key that is encoded in CBOR, as `ciborium` and `coset` decode it.
pub uninterp spec fn cose_key_params(raw: Seq<u8>) -> Result<Seq<CoseParam>, TokenError>;

/// `ciborium::de::from_reader` and `coset::CoseKey::from_cbor_value`: the parameters of a key,
/// where the bytes start with a CBOR item and that item is a COSE key. A parameter keeps its
/// numeric label, and its value where that is a byte string or an integer.
#[verifier::external_body]
fn decode_cose_key(raw: &[u8]) -> (r: Result<Vec<KeyParam>, TokenError>)
    ensures
        match r {
            Ok(v) => cose_key_params(raw@) == Ok::<_, TokenError>(params_view(v@)),
            Err(e) => cose_key_params(raw@) == Err::<Seq<CoseParam>, _>(e) && (e == TokenError::Cbor
                || e == TokenError::Cose),
        },
{
    let value: ciborium::Value = ciborium::de::from_reader(raw).map_err(|_| TokenError::Cbor)?;
    let key: coset::CoseKey = coset::AsCborValue::from_cbor_value(value).map_err(
        |_| TokenError::Cose,
    )?;
    Ok(key.params.into_iter().map(|(label, value)| KeyParam {
        label: match label { coset::Label::Int(n) => Some(n), coset::Label::Text(_) => None },
        value: match value {
            ciborium::Value::Bytes(b) => KeyValue::Bytes(b),
            ciborium::Value::Integer(n) => KeyValue::Integer(n.into()),
            _ => KeyValue::Other,
        },
    }).collect())
}

// ---------------------------------------------------------------------------
// Signatures
// ---------------------------------------------------------------------------

/// Whether `sig` is a signature of `data` under a key on the curve P-256 with SHA-256, as `ring`
/// verifies it.
pub uninterp spec fn p256_signature_holds(key: Seq<u8>, data: Seq<u8>, sig: Seq<u8>) -> bool;

/// Whether `sig` is a signature of `data` under a key on the curve P-384 with SHA-384, as `ring`
/// verifies it.
pub uninterp spec fn p384_signature_holds(key: Seq<u8>, data: Seq<u8>, sig: Seq<u8>) -> bool;

/// `ring::signature::UnparsedPublicKey::verify` with `ECDSA_P256_SHA256_FIXED`: whether the
/// signature is valid. A message that is too long to be hashed is refused by a panic.
#[verifier::external_body]
fn ring_p256_verify(key: &[u8], data: &[u8], sig: &[u8]) -> (r: bool)
    requires
        data@.len() < MESSAGE_LIMIT,
    ensures
        r == p256_signature_holds(key@, data@, sig@),
{
    ring::signature::UnparsedPublicKey::new(
        &ring::signature::ECDSA_P256_SHA256_FIXED,
        key,
    ).verify(data, sig).is_ok()
}

/// `ring::signature::UnparsedPublicKey::verify` with `ECDSA_P384_SHA384_FIXED`: whether the
/// signature is valid. A message that is too long to be hashed is refused by a panic.
#[verifier::external_body]
fn ring_p384_verify(key: &[u8], data: &[u8], sig: &[u8]) -> (r: bool)
    requires
        data@.len() < MESSAGE_LIMIT,
    ensures
        r == p384_signature_holds(key@, data@, sig@),
{
    ring::signature::UnparsedPublicKey::new(
        &ring::signature::ECDSA_P384_SHA384_FIXED,
        key,
    ).verify(data, sig).is_ok()
}

/// Whether a signature holds on the curve of its algorithm.
pub open spec fn signature_holds(
    algorithm: SigningAlgorithm,
    key: Seq<u8>,
    data: Seq<u8>,
    sig: Seq<u8>,
) -> bool {
    match algorithm {
        SigningAlgorithm::ES256 => p256_signature_holds(key, data, sig),
        SigningAlgorithm::ES384 => p384_signature_holds(key, data, sig),
        SigningAlgorithm::ES512 => false,
    }
}

/// What verifying a signature comes to, from whether it holds.
pub open spec fn signature_outcome(algorithm: SigningAlgorithm, holds: bool) -> Result<
    (),
    TokenError,
> {
    if algorithm == SigningAlgorithm::ES512 {
        Err(TokenError::NotImplemented)
    } else if holds {
        Ok(())
    } else if algorithm == SigningAlgorithm::ES256 {
        Err(TokenError::VerificationFailed(Mismatch::P256Signature))
    } else {
        Err(TokenError::VerificationFailed(Mismatch::P384Signature))
    }
}

/// What verifying a signature comes to, from whether it holds.
pub fn signature_result(algorithm: SigningAlgorithm, holds: bool) -> (r: Result<(), TokenError>)
    ensures
        r == signature_outcome(algorithm, holds),
{
    match algorithm {
        SigningAlgorithm::ES256 => {
            if holds {
                Ok(())
            } else {
                Err(TokenError::VerificationFailed(Mismatch::P256Signature))
            }
        },
        SigningAlgorithm::ES384 => {
            if holds {
                Ok(())
            } else {
                Err(TokenError::VerificationFailed(Mismatch::P384Signature))
            }
        },
        SigningAlgorithm::ES512 => Err(TokenError::NotImplemented),
    }
}

/// What verifying a signature under an encoded key comes to, from what the key decodes to.
pub open spec fn verification_outcome(
    algorithm: SigningAlgorithm,
    params: Result<Seq<CoseParam>, TokenError>,
    data: Seq<u8>,
    sig: Seq<u8>,
) -> Result<(), TokenError> {
    match params {
        Err(e) => Err(e),
        Ok(p) => match key_for(algorithm, p) {
            Err(e) => Err(e),
            Ok(key) => signature_outcome(algorithm, signature_holds(algorithm, key, data, sig)),
        },
    }
}

/// Verifies signatures of one algorithm under one key.
#[derive(Debug)]
pub struct RustCryptoVerifier {
    algorithm: SigningAlgorithm,
    key_public_raw: Vec<u8>,
}

impl RustCryptoVerifier {
    pub closed spec fn spec_algorithm(&self) -> SigningAlgorithm {
        self.algorithm
    }

    pub closed spec fn spec_key(&self) -> Seq<u8> {
        self.key_public_raw@
    }

    /// A verifier under a key that is encoded as a COSE key.
    pub fn new(algorithm: SigningAlgorithm, key_public: &[u8]) -> (r: Self)
        ensures
            r.spec_algorithm() == algorithm,
            r.spec_key() == key_public@,
    {
        RustCryptoVerifier {
            algorithm,
            key_public_raw: vstd::slice::slice_to_vec(key_public),
        }
    }

    /// Verifies a signature of `data`.
    pub fn verify(&self, sig: &[u8], data: &[u8]) -> (r: Result<(), TokenError>)
        requires
            data@.len() < MESSAGE_LIMIT,
        ensures
            r == verification_outcome(
                self.spec_algorithm(),
                cose_key_params(self.spec_key()),
                data@,
                sig@,
            ),
    {
        let params: Vec<KeyParam> = match decode_cose_key(self.key_public_raw.as_slice()) {
            Ok(p) => p,
            Err(e) => {
                return Err(e);
            },
        };
        let key: Vec<u8> = match verification_key(self.algorithm, &params) {
            Ok(k) => k,
            Err(e) => {
                return Err(e);
            },
        };
        let holds: bool = match self.algorithm {
            SigningAlgorithm::ES256 => ring_p256_verify(key.as_slice(), data, sig),
            SigningAlgorithm::ES384 => ring_p384_verify(key.as_slice(), data, sig),
            SigningAlgorithm::ES512 => false,
        };
        signature_result(self.algorithm, holds)
    }
}

/// A message with one signature.
#[derive(Debug)]
pub struct CoseSign1 {
    /// The algorithm that the protected header names.
    pub alg: Option<CoseAlgorithm>,
    /// The protected header as it is encoded in the message.
    pub protected: Vec<u8>,
    pub payload: Option<Vec<u8>>,
    pub signature: Vec<u8>,
}

impl CoseSign1 {
    /// The payload, which is empty where there is none.
    pub open spec fn content(self) -> Seq<u8> {
        match self.payload {
            Some(p) => p@,
            None => Seq::empty(),
        }
    }
}

/// The first bytes of a CBOR item: its major type and a number, in as few bytes as possible.
#[verifier::opaque]
pub open spec fn cbor_head(major: u8, n: nat) -> Seq<u8> {
    let top = major * 32;
    if n < 24 {
        seq![(top + n) as u8]
    } else if n < 0x100 {
        seq![(top + 24) as u8, n as u8]
    } else if n < 0x1_0000 {
        seq![(top + 25) as u8] + be16(n as u16)
    } else if n < 0x1_0000_0000 {
        seq![(top + 26) as u8] + be32(n as u32)
    } else {
        seq![(top + 27) as u8] + be32((n / 0x1_0000_0000) as u32) + be32(
            (n % 0x1_0000_0000) as u32,
        )
    }
}

/// A byte string in CBOR.
pub open spec fn cbor_bytes(data: Seq<u8>) -> Seq<u8> {
    cbor_head(2, data.len()) + data
}

/// What is signed of a message with one signature: in CBOR, an array of the text `Signature1`,
/// the protected header, the additional data and the payload.
#[verifier::opaque]
pub open spec fn signed_data(protected: Seq<u8>, aad: Seq<u8>, payload: Seq<u8>) -> Seq<u8> {
    cbor_head(4, 4) + cbor_head(3, 10) + seq![
        0x53u8,
        0x69u8,
        0x67u8,
        0x6eu8,
        0x61u8,
        0x74u8,
        0x75u8,
        0x72u8,
        0x65u8,
        0x31u8,
    ] + cbor_bytes(protected) + cbor_bytes(aad) + cbor_bytes(payload)
}

/// What is signed is hardly longer than its parts.
pub proof fn signed_data_length(protected: Seq<u8>, aad: Seq<u8>, payload: Seq<u8>)
    ensures
        signed_data(protected, aad, payload).len() <= protected.len() + aad.len() + payload.len()
            + 39,
{
    reveal(cbor_head);
    reveal(signed_data);
    assert(cbor_head(4, 4).len() == 1);
    assert(cbor_head(3, 10).len() == 1);
    assert(cbor_head(2, protected.len()).len() <= 9);
    assert(cbor_head(2, aad.len()).len() <= 9);
    assert(cbor_head(2, payload.len()).len() <= 9);
}

/// `coset::sig_structure_data` for a message with one signature whose protected header is given
/// as it is encoded.
#[verifier::external_body]
fn sig_structure_data(protected: &[u8], aad: &[u8], payload: &[u8]) -> (r: Vec<u8>)
    ensures
        r@ == signed_data(protected@, aad@, payload@),
{
    let body = coset::ProtectedHeader {
        original_data: Some(protected.to_vec()),
        header: coset::Header::default(),
    };
    coset::sig_structure_data(coset::SignatureContext::CoseSign1, body, None, aad, payload)
}

/// What verifying a message comes to, from what the key decodes to.
pub open spec fn message_outcome(
    cose: CoseSign1,
    params: Result<Seq<CoseParam>, TokenError>,
    aad: Seq<u8>,
) -> Result<(), TokenError> {
    match cose.alg {
        None => Err(TokenError::InvalidAlgorithm(None)),
        Some(alg) => match algorithm_of(alg) {
            None => Err(TokenError::InvalidAlgorithm(Some(alg))),
            Some(algorithm) => verification_outcome(
                algorithm,
                params,
                signed_data(cose.protected@, aad, cose.content()),
                cose.signature@,
            ),
        },
    }
}

/// Verifies the signature of a message under a key that is encoded as a COSE key.
pub fn verify_coset_signature(cose: &CoseSign1, key_pub: &[u8], aad: &[u8]) -> (r: Result<
    (),
    TokenError,
>)
    requires
        cose.protected@.len() + aad@.len() + cose.content().len() + 39 < MESSAGE_LIMIT,
    ensures
        r == message_outcome(*cose, cose_key_params(key_pub@), aad@),
{
    let alg: CoseAlgorithm = match &cose.alg {
        Some(a) => a.clone(),
        None => {
            return Err(TokenError::InvalidAlgorithm(None));
        },
    };
    let algorithm: SigningAlgorithm = match SigningAlgorithm::from_cose(alg) {
        Ok(a) => a,
        Err(e) => {
            return Err(e);
        },
    };
    let verifier: RustCryptoVerifier = RustCryptoVerifier::new(algorithm, key_pub);
    let empty: Vec<u8> = Vec::new();
    let payload: &[u8] = match &cose.payload {
        Some(p) => p.as_slice(),
        None => empty.as_slice(),
    };
    assert(payload@ == cose.content());
    let data: Vec<u8> = sig_structure_data(cose.protected.as_slice(), aad, payload);
    proof {
        signed_data_length(cose.protected@, aad@, payload@);
    }
    verifier.verify(cose.signature.as_slice(), data.as_slice())
}

// ---------------------------------------------------------------------------
// Digests
// ---------------------------------------------------------------------------

/// The digest of a message under the hash algorithm of a signature algorithm.
pub open spec fn digest_of(algorithm: SigningAlgorithm, data: Seq<u8>) -> Seq<u8> {
    match algorithm {
        SigningAlgorithm::ES256 => sha256(data),
        SigningAlgorithm::ES384 => sha384(data),
        SigningAlgorithm::ES512 => sha512(data),
    }
}

/// Verifies that `hash` is the digest of `data` under the hash algorithm of the given name.
pub fn verify_digest(data: &[u8], hash: &[u8], alg: &str) -> (r: Result<(), TokenError>)
    requires
        data@.len() < MESSAGE_LIMIT,
    ensures
        match algorithm_of_hash(alg@) {
            None => r == Err::<(), _>(TokenError::InvalidTokenFormat),
            Some(a) => if digest_of(a, data@) == hash@ {
                r == Ok::<_, TokenError>(())
            } else {
                r == Err::<(), _>(TokenError::VerificationFailed(Mismatch::Challenge))
            },
        },
        alg@ == "sha-256"@ ==> (r is Ok <==> hash@ == sha256(data@)),
        alg@ == "sha-384"@ ==> (r is Ok <==> hash@ == sha384(data@)),
        alg@ == "sha-512"@ ==> (r is Ok <==> hash@ == sha512(data@)),
        r is Ok ==> alg@ == "sha-256"@ || alg@ == "sha-384"@ || alg@ == "sha-512"@,
{
    proof {
        hash_names_are_told_apart();
        digests_are_of_the_whole_message(data@);
    }
    let algorithm: SigningAlgorithm = match SigningAlgorithm::from_hash_name(alg) {
        Ok(a) => a,
        Err(e) => {
            return Err(e);
        },
    };
    let digest: Vec<u8> = match algorithm {
        SigningAlgorithm::ES256 => ring_sha256(data),
        SigningAlgorithm::ES384 => ring_sha384(data),
        SigningAlgorithm::ES512 => ring_sha512(data),
    };
    compare_digest(digest.as_slice(), hash)
}

/// Verifies that `hash` is the given digest.
pub fn compare_digest(digest: &[u8], hash: &[u8]) -> (r: Result<(), TokenError>)
    ensures
        r == if digest@ == hash@ {
            Ok::<(), TokenError>(())
        } else {
            Err::<(), TokenError>(TokenError::VerificationFailed(Mismatch::Challenge))
        },
{
    if bytes_eq(digest, hash) {
        Ok(())
    } else {
        Err(TokenError::VerificationFailed(Mismatch::Challenge))
    }
}

// ---------------------------------------------------------------------------
// Laws
// ---------------------------------------------------------------------------

/// A message verifies only under a key of its own algorithm, and only where the signature of what
/// is signed of it holds on that key's curve.
pub proof fn accepted_messages_are_signed(
    cose: CoseSign1,
    params: Result<Seq<CoseParam>, TokenError>,
    aad: Seq<u8>,
)
    ensures
        message_outcome(cose, params, aad) is Ok ==> {
            let data = signed_data(cose.protected@, aad, cose.content());
            params matches Ok(p) && uncompressed_key(p) matches Ok(k) && cose.alg matches Some(a)
                && algorithm_of(a) == Some(k.1) && ({
                ||| k.1 == SigningAlgorithm::ES256 && k.0.len() == 65 && p256_signature_holds(
                    k.0,
                    data,
                    cose.signature@,
                )
                ||| k.1 == SigningAlgorithm::ES384 && k.0.len() == 97 && p384_signature_holds(
                    k.0,
                    data,
                    cose.signature@,
                )
            })
        },
{
}

/// No message with the algorithm on the curve P-521 verifies.
pub proof fn p521_is_never_accepted(
    cose: CoseSign1,
    params: Result<Seq<CoseParam>, TokenError>,
    aad: Seq<u8>,
)
    requires
        cose.alg == Some(CoseAlgorithm::Assigned(COSE_ALGORITHM_ES512)),
    ensures
        message_outcome(cose, params, aad) is Err,
{
}

proof fn hash_names_are_told_apart()
    ensures
        "sha-256"@ != "sha-384"@,
        "sha-256"@ != "sha-512"@,
        "sha-384"@ != "sha-512"@,
{
    reveal_strlit("sha-256");
    reveal_strlit("sha-384");
    reveal_strlit("sha-512");
    assert("sha-256"@[4] == '2');
    assert("sha-384"@[4] == '3');
    assert("sha-512"@[4] == '5');
}

/// A digest is that of the whole message, however long it is, under the one hash algorithm that
/// belongs to the signature algorithm.
pub proof fn digests_are_of_the_whole_message(data: Seq<u8>)
    ensures
        digest_of(SigningAlgorithm::ES256, data) == sha256(data),
        digest_of(SigningAlgorithm::ES384, data) == sha384(data),
        digest_of(SigningAlgorithm::ES512, data) == sha512(data),
{
}

/// Just three names of hash algorithms are known, and each stands for the signature algorithm with
/// that hash algorithm.
pub proof fn hash_algorithms_go_by_their_names(name: Seq<char>)
    ensures
        algorithm_of_hash(name) == Some(SigningAlgorithm::ES256) <==> name == "sha-256"@,
        algorithm_of_hash(name) == Some(SigningAlgorithm::ES384) <==> name == "sha-384"@,
        algorithm_of_hash(name) == Some(SigningAlgorithm::ES512) <==> name == "sha-512"@,
{
    hash_names_are_told_apart();
}

/// Just three registered numbers name a signature algorithm; neither another number nor a private
/// number nor a text does.
pub proof fn signature_algorithms_go_by_their_numbers(alg: CoseAlgorithm)
    ensures
        algorithm_of(alg) == Some(SigningAlgorithm::ES256) <==> alg == CoseAlgorithm::Assigned(
            -7i64,
        ),
        algorithm_of(alg) == Some(SigningAlgorithm::ES384) <==> alg == CoseAlgorithm::Assigned(
            -35i64,
        ),
        algorithm_of(alg) == Some(SigningAlgorithm::ES512) <==> alg == CoseAlgorithm::Assigned(
            -36i64,
        ),
{
}

/// A parameter that follows names the curve where its label is -1 and its value is the number of a
/// known curve; any other leaves the curve as it is. Without parameters there is no curve.
pub proof fn last_known_curve_counts(params: Seq<CoseParam>, p: CoseParam)
    ensures
        curve_of(Seq::empty()) is None,
        p == (CoseParam { label: Some(-1i64), value: CoseValue::Integer(1i128) }) ==> curve_of(
            params.push(p),
        ) == Some(SigningAlgorithm::ES256),
        p == (CoseParam { label: Some(-1i64), value: CoseValue::Integer(2i128) }) ==> curve_of(
            params.push(p),
        ) == Some(SigningAlgorithm::ES384),
        p != (CoseParam { label: Some(-1i64), value: CoseValue::Integer(1i128) }) && p != (
        CoseParam { label: Some(-1i64), value: CoseValue::Integer(2i128) }) ==> curve_of(
            params.push(p),
        ) == curve_of(params),
{
    assert(params.push(p).drop_last() =~= params);
}

/// A coordinate is the byte string of the last parameter with its label, wherever that stands; it
/// is empty where there is no such parameter.
pub proof fn last_bytes_count(params: Seq<CoseParam>, label: i64, i: int)
    requires
        -1 <= i < params.len(),
        i >= 0 ==> params[i].label == Some(label) && params[i].value is Bytes,
        forall|k: int|
            i < k < params.len() ==> !((#[trigger] params[k]).label == Some(label)
                && params[k].value is Bytes),
    ensures
        i >= 0 ==> CoseValue::Bytes(bytes_of(params, label)) == params[i].value,
        i < 0 ==> bytes_of(params, label).len() == 0,
    decreases params.len(),
{
    if params.len() > 0 && i < params.len() - 1 {
        let before = params.drop_last();
        assert(params[params.len() - 1] == params.last());
        assert forall|k: int| i < k < before.len() implies !((#[trigger] before[k]).label == Some(
            label,
        ) && before[k].value is Bytes) by {
            assert(before[k] == params[k]);
        }
        last_bytes_count(before, label, i);
    }
}

/// A public key is usable exactly where its curve is known and both of its coordinates fill that
/// curve's width; its form is then a byte 4, the first coordinate and the second one.
pub proof fn keys_hold_their_coordinates(params: Seq<CoseParam>)
    ensures
        ({
            let x = bytes_of(params, -2i64);
            let y = bytes_of(params, -3i64);
            match uncompressed_key(params) {
                Ok((key, algorithm)) => {
                    &&& curve_of(params) == Some(algorithm)
                    &&& x.len() == y.len()
                    &&& algorithm == SigningAlgorithm::ES256 && x.len() == 32 || algorithm
                        == SigningAlgorithm::ES384 && x.len() == 48
                    &&& key.len() == 1 + 2 * x.len()
                    &&& key[0] == 4
                    &&& key.subrange(1, 1 + x.len() as int) == x
                    &&& key.skip(1 + x.len() as int) == y
                },
                Err(e) => {
                    ||| curve_of(params) == Some(SigningAlgorithm::ES256) && (x.len() != 32
                        || y.len() != 32) && e == TokenError::InvalidKey(KeyFault::P256Length)
                    ||| curve_of(params) == Some(SigningAlgorithm::ES384) && (x.len() != 48
                        || y.len() != 48) && e == TokenError::InvalidKey(KeyFault::P384Length)
                    ||| (curve_of(params) is None || curve_of(params) == Some(
                        SigningAlgorithm::ES512,
                    )) && e == TokenError::InvalidKey(KeyFault::UnknownCurve)
                },
            }
        }),
{
    let x = bytes_of(params, -2i64);
    let y = bytes_of(params, -3i64);
    if uncompressed_key(params) is Ok {
        let key = seq![4u8] + x + y;
        assert(key.subrange(1, 1 + x.len() as int) =~= x);
        assert(key.skip(1 + x.len() as int) =~= y);
    }
}

/// A key is used for a message exactly where it is usable and is for the message's algorithm.
pub proof fn keys_are_used_for_their_own_algorithm(
    algorithm: SigningAlgorithm,
    params: Seq<CoseParam>,
    key: Seq<u8>,
)
    ensures
        key_for(algorithm, params) == Ok::<_, TokenError>(key) <==> uncompressed_key(params)
            == Ok::<_, TokenError>((key, algorithm)),
        uncompressed_key(params) matches Err(e) ==> key_for(algorithm, params) == Err::<
            Seq<u8>,
            _,
        >(e),
        uncompressed_key(params) matches Ok(k) && k.1 != algorithm ==> key_for(algorithm, params)
            == Err::<Seq<u8>, _>(TokenError::VerificationFailed(Mismatch::KeyAlgorithm)),
{
}

/// A signature verifies under a key exactly where that key is for the algorithm and the signature
/// holds for the data on the key's own curve, and what is wrong otherwise is told.
pub proof fn signatures_verify_on_their_curve(
    algorithm: SigningAlgorithm,
    params: Result<Seq<CoseParam>, TokenError>,
    data: Seq<u8>,
    sig: Seq<u8>,
)
    ensures
        ({
            let r = verification_outcome(algorithm, params, data, sig);
            &&& params matches Err(e) ==> r == Err::<(), _>(e)
            &&& params is Ok && key_for(algorithm, params->Ok_0) is Err ==> r == Err::<(), _>(
                key_for(algorithm, params->Ok_0)->Err_0,
            )
            &&& params is Ok && key_for(algorithm, params->Ok_0) is Ok ==> {
                let key = key_for(algorithm, params->Ok_0)->Ok_0;
                &&& algorithm == SigningAlgorithm::ES256 ==> r == if p256_signature_holds(
                    key,
                    data,
                    sig,
                ) {
                    Ok::<(), _>(())
                } else {
                    Err::<(), _>(TokenError::VerificationFailed(Mismatch::P256Signature))
                }
                &&& algorithm == SigningAlgorithm::ES384 ==> r == if p384_signature_holds(
                    key,
                    data,
                    sig,
                ) {
                    Ok::<(), _>(())
                } else {
                    Err::<(), _>(TokenError::VerificationFailed(Mismatch::P384Signature))
                }
                &&& algorithm == SigningAlgorithm::ES512 ==> r is Err
            }
        }),
{
}

/// A message verifies wherever its algorithm is known, the key is for that algorithm and the
/// signature of what is signed of the message holds on the key's curve.
pub proof fn signed_messages_are_accepted(
    cose: CoseSign1,
    params: Seq<CoseParam>,
    key: Seq<u8>,
    aad: Seq<u8>,
)
    ensures
        ({
            let r = message_outcome(cose, Ok(params), aad);
            let data = signed_data(cose.protected@, aad, cose.content());
            &&& cose.alg == Some(CoseAlgorithm::Assigned(-7i64)) && uncompressed_key(params) == Ok::<
                _,
                TokenError,
            >((key, SigningAlgorithm::ES256)) && p256_signature_holds(key, data, cose.signature@)
                ==> r is Ok
            &&& cose.alg == Some(CoseAlgorithm::Assigned(-35i64)) && uncompressed_key(params)
                == Ok::<_, TokenError>((key, SigningAlgorithm::ES384)) && p384_signature_holds(
                key,
                data,
                cose.signature@,
            ) ==> r is Ok
        }),
{
}

/// A message without an algorithm or with an unknown one is refused for just that, whatever the key
/// is; one with a known algorithm and a key that cannot be decoded is refused for that.
pub proof fn unknown_algorithms_are_named(
    cose: CoseSign1,
    params: Result<Seq<CoseParam>, TokenError>,
    aad: Seq<u8>,
)
    ensures
        cose.alg is None ==> message_outcome(cose, params, aad) == Err::<(), _>(
            TokenError::InvalidAlgorithm(None),
        ),
        cose.alg matches Some(a) && algorithm_of(a) is None ==> message_outcome(cose, params, aad)
            == Err::<(), _>(TokenError::InvalidAlgorithm(cose.alg)),
        cose.alg is Some && algorithm_of(cose.alg->0) is Some && params is Err ==> message_outcome(
            cose,
            params,
            aad,
        ) == Err::<(), _>(params->Err_0),
{
}

/// What is signed starts with an array of four items and the text `Signature1`, and holds the
/// whole of the protected header, of the additional data and, at its end, of the payload.
pub proof fn signed_data_holds_its_parts(protected: Seq<u8>, aad: Seq<u8>, payload: Seq<u8>)
    ensures
        ({
            let data = signed_data(protected, aad, payload);
            let h = cbor_head(2, protected.len()).len() as int;
            let a = cbor_head(2, aad.len()).len() as int;
            let p = cbor_head(2, payload.len()).len() as int;
            let from_aad = 12 + h + protected.len();
            let from_payload = from_aad + a + aad.len();
            &&& data.len() == from_payload + p + payload.len()
            &&& data.take(12) == seq![
                0x84u8,
                0x6au8,
                0x53u8,
                0x69u8,
                0x67u8,
                0x6eu8,
                0x61u8,
                0x74u8,
                0x75u8,
                0x72u8,
                0x65u8,
                0x31u8,
            ]
            &&& data.subrange(12, 12 + h) == cbor_head(2, protected.len())
            &&& data.subrange(12 + h, from_aad) == protected
            &&& data.subrange(from_aad, from_aad + a) == cbor_head(2, aad.len())
            &&& data.subrange(from_aad + a, from_payload) == aad
            &&& data.subrange(from_payload, from_payload + p) == cbor_head(2, payload.len())
            &&& data.skip(from_payload + p) == payload
        }),
{
    reveal(signed_data);
    let data = signed_data(protected, aad, payload);
    let h = cbor_head(2, protected.len()).len() as int;
    let a = cbor_head(2, aad.len()).len() as int;
    let p = cbor_head(2, payload.len()).len() as int;
    let from_aad = 12 + h + protected.len();
    let from_payload = from_aad + a + aad.len();
    assert(cbor_head(4, 4) =~= seq![0x84u8] && cbor_head(3, 10) =~= seq![0x6au8]) by {
        reveal(cbor_head);
    }
    assert(data.take(12) =~= seq![
        0x84u8,
        0x6au8,
        0x53u8,
        0x69u8,
        0x67u8,
        0x6eu8,
        0x61u8,
        0x74u8,
        0x75u8,
        0x72u8,
        0x65u8,
        0x31u8,
    ]);
    assert(data.subrange(12, 12 + h) =~= cbor_head(2, protected.len()));
    assert(data.subrange(12 + h, from_aad) =~= protected);
    assert(data.subrange(from_aad, from_aad + a) =~= cbor_head(2, aad.len()));
    assert(data.subrange(from_aad + a, from_payload) =~= aad);
    assert(data.subrange(from_payload, from_payload + p) =~= cbor_head(2, payload.len()));
    assert(data.skip(from_payload + p) =~= payload);
}

/// The first bytes of a CBOR item hold its major type in the upper three bits and its number in
/// network order: within the first byte, or in the one, two, four or eight bytes that follow it.
pub proof fn cbor_heads_denote_their_numbers(major: u8, n: nat)
    requires
        major < 8,
        n < 0x1_0000_0000_0000_0000,
    ensures
        ({
            let b = cbor_head(major, n);
            &&& b.len() >= 1
            &&& b[0] / 32 == major
            &&& n < 24 <==> b.len() == 1
            &&& 24 <= n < 0x100 <==> b.len() == 2
            &&& 0x100 <= n < 0x1_0000 <==> b.len() == 3
            &&& 0x1_0000 <= n < 0x1_0000_0000 <==> b.len() == 5
            &&& 0x1_0000_0000 <= n <==> b.len() == 9
            &&& b.len() == 1 ==> b[0] % 32 == n
            &&& b.len() == 2 ==> b[0] % 32 == 24 && b[1] == n
            &&& b.len() == 3 ==> b[0] % 32 == 25 && b[1] * 0x100 + b[2] == n
            &&& b.len() == 5 ==> b[0] % 32 == 26 && b[1] * 0x100_0000 + b[2] * 0x1_0000 + b[3]
                * 0x100 + b[4] == n
            &&& b.len() == 9 ==> b[0] % 32 == 27 && (b[1] * 0x100_0000 + b[2] * 0x1_0000 + b[3]
                * 0x100 + b[4]) * 0x1_0000_0000 + (b[5] * 0x100_0000 + b[6] * 0x1_0000 + b[7]
                * 0x100 + b[8]) == n
        }),
{
    reveal(cbor_head);
    let b = cbor_head(major, n);
    if 0x1_0000_0000 <= n {
        let hi = (n / 0x1_0000_0000) as u32;
        let lo = (n % 0x1_0000_0000) as u32;
        assert(b =~= seq![(major * 32 + 27) as u8] + be32(hi) + be32(lo));
        assert(b[1] == be32(hi)[0] && b[2] == be32(hi)[1] && b[3] == be32(hi)[2] && b[4] == be32(
            hi,
        )[3]);
        assert(b[5] == be32(lo)[0] && b[6] == be32(lo)[1] && b[7] == be32(lo)[2] && b[8] == be32(
            lo,
        )[3]);
        assert(b[1] * 0x100_0000 + b[2] * 0x1_0000 + b[3] * 0x100 + b[4] == hi);
        assert(b[5] * 0x100_0000 + b[6] * 0x1_0000 + b[7] * 0x100 + b[8] == lo);
    }
}

/// A message that has no payload is signed like one with an empty payload, and one that has a
/// payload is signed with all of it.
pub proof fn payloads_are_signed_whole(cose: CoseSign1)
    ensures
        cose.payload is None ==> cose.content() == Seq::<u8>::empty(),
        cose.payload matches Some(p) ==> cose.content() == p@,
{
}

/// What is said of the parameters of a key is what they hold, one by one, with all of their bytes.
pub proof fn nothing_is_left_out_of_a_key(params: Seq<KeyParam>, i: int)
    requires
        0 <= i < params.len(),
    ensures
        params_view(params).len() == params.len(),
        params_view(params)[i].label == params[i].label,
        match params[i].value {
            KeyValue::Bytes(b) => params_view(params)[i].value == CoseValue::Bytes(b@),
            KeyValue::Integer(n) => params_view(params)[i].value == CoseValue::Integer(n),
            KeyValue::Other => params_view(params)[i].value == CoseValue::Other,
        },
{
}

} // verus!
