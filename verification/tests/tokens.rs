//! Attestation tokens: claims, keys, signatures and digests.
use ciborium::Value;
use coset::{iana, AsCborValue, CborSerializable, CoseKeyBuilder};
use realm_virt::rsi::crypto::{
    compare_digest, get_uncompressed_public_key_from_cosekey, signature_result, verification_key,
    verify_coset_signature, verify_digest, CoseSign1, KeyParam, KeyValue, RustCryptoVerifier,
    SigningAlgorithm,
};
use realm_virt::rsi::kernel::{
    abi_version_get_major, abi_version_get_minor, RsiAttestation, RsiMeasurement, RsiRealmConfig,
    RsiSealingKey,
};
use realm_virt::rsi::parser::{PlatClaims, PlatSwComponent, RealmClaims};
use realm_virt::rsi::token::{
    Claim, ClaimData, ClaimsMap, CoseAlgorithm, KeyFault, Mismatch, TokenError,
};
use ring::rand::SystemRandom;
use ring::signature::{
    EcdsaKeyPair, EcdsaSigningAlgorithm, KeyPair, ECDSA_P256_SHA256_FIXED_SIGNING,
    ECDSA_P384_SHA384_FIXED_SIGNING,
};

fn bytes_claim(b: &[u8]) -> Claim {
    Claim { data: ClaimData::Bstr(b.to_vec()) }
}

fn text_claim(t: &str) -> Claim {
    Claim { data: ClaimData::Text(t.to_string()) }
}

fn plat_claims() -> ClaimsMap {
    let mut m = ClaimsMap::new();
    m.insert(10, bytes_claim(b"challenge"));
    m.insert(2400, text_claim("https://verifier"));
    m.insert(265, text_claim("profile"));
    m.insert(256, bytes_claim(b"instance"));
    m.insert(2396, bytes_claim(b"implementation"));
    m.insert(2395, Claim { data: ClaimData::Int64(12291) });
    m.insert(2401, bytes_claim(b"config"));
    m.insert(2402, text_claim("sha-256"));
    m
}

#[test]
fn platform_claims_are_read() {
    let c = PlatClaims::from_raw_claims(&plat_claims()).unwrap();
    assert_eq!(c.challenge, b"challenge");
    assert_eq!(c.verification_service, "https://verifier");
    assert_eq!(c.profile, "profile");
    assert_eq!(c.instance_id, b"instance");
    assert_eq!(c.implementation_id, b"implementation");
    assert_eq!(c.lifecycle, 12291);
    assert_eq!(c.configuration, b"config");
    assert_eq!(c.hash_algo, "sha-256");
}

#[test]
fn first_bad_platform_claim_is_reported() {
    for key in [10, 2400, 265, 256, 2396, 2395, 2401, 2402] {
        let mut m = plat_claims();
        m.remove(&key);
        assert_eq!(
            PlatClaims::from_raw_claims(&m).unwrap_err(),
            TokenError::MissingPlatSwClaim(key)
        );
        let mut m = plat_claims();
        m.insert(key, Claim { data: ClaimData::Bool(true) });
        assert_eq!(PlatClaims::from_raw_claims(&m).unwrap_err(), TokenError::ClaimDataMismatch);
    }
    let mut m = plat_claims();
    m.remove(&2402);
    m.insert(265, bytes_claim(b""));
    assert_eq!(PlatClaims::from_raw_claims(&m).unwrap_err(), TokenError::ClaimDataMismatch);
}

#[test]
fn components_fall_back_to_the_platform_hash() {
    let mut m = ClaimsMap::new();
    m.insert(1, text_claim("BL2"));
    m.insert(2, bytes_claim(b"hash"));
    m.insert(4, text_claim("1.0"));
    m.insert(5, bytes_claim(b"signer"));
    let platform = "sha-512".to_string();
    let c = PlatSwComponent::from_raw_claims(&m, &platform).unwrap();
    assert_eq!((c.ty.as_str(), c.hash_algo.as_str(), c.version.as_str()), ("BL2", "sha-512", "1.0"));
    assert_eq!((c.value, c.signer_id), (b"hash".to_vec(), b"signer".to_vec()));
    m.insert(6, text_claim("sha-384"));
    assert_eq!(PlatSwComponent::from_raw_claims(&m, &platform).unwrap().hash_algo, "sha-384");
    m.insert(6, bytes_claim(b""));
    assert_eq!(
        PlatSwComponent::from_raw_claims(&m, &platform).unwrap_err(),
        TokenError::ClaimDataMismatch
    );
    m.remove(&1);
    assert_eq!(
        PlatSwComponent::from_raw_claims(&m, &platform).unwrap_err(),
        TokenError::MissingPlatSwClaim(1)
    );
}

#[test]
fn realm_claims_are_read_after_the_measurements() {
    let mut m = ClaimsMap::new();
    m.insert(10, bytes_claim(b"challenge"));
    m.insert(265, text_claim("profile"));
    m.insert(44235, bytes_claim(b"rpv"));
    m.insert(44236, text_claim("sha-256"));
    m.insert(44240, text_claim("sha-512"));
    m.insert(44237, bytes_claim(b"key"));
    m.insert(44238, bytes_claim(b"rim"));
    let mut rems = ClaimsMap::new();
    for i in 0..4u32 {
        rems.insert(i, bytes_claim(&[i as u8; 2]));
    }
    let c = RealmClaims::from_raw_claims(&m, &rems).unwrap();
    assert_eq!((c.rim, c.pub_key), (b"rim".to_vec(), b"key".to_vec()));
    assert_eq!(c.rems[3], vec![3, 3]);
    assert_eq!((c.hash_algo.as_str(), c.pub_key_hash_algo.as_str()), ("sha-256", "sha-512"));
    rems.remove(&2);
    m.remove(&10);
    assert_eq!(
        RealmClaims::from_raw_claims(&m, &rems).unwrap_err(),
        TokenError::MissingPlatSwClaim(2)
    );
    rems.insert(2, bytes_claim(b""));
    assert_eq!(
        RealmClaims::from_raw_claims(&m, &rems).unwrap_err(),
        TokenError::MissingPlatSwClaim(10)
    );
}

fn param(label: i64, value: KeyValue) -> KeyParam {
    KeyParam { label: Some(label), value }
}

#[test]
fn keys_are_uncompressed() {
    let params = vec![
        param(-1, KeyValue::Integer(1)),
        param(-2, KeyValue::Bytes(vec![1; 32])),
        KeyParam { label: None, value: KeyValue::Bytes(vec![9]) },
        param(-3, KeyValue::Bytes(vec![2; 32])),
        param(-3, KeyValue::Other),
    ];
    let (key, alg) = get_uncompressed_public_key_from_cosekey(&params).unwrap();
    assert_eq!(alg, SigningAlgorithm::ES256);
    assert_eq!(key.len(), 65);
    assert_eq!((key[0], key[1], key[33]), (4, 1, 2));
    assert_eq!(verification_key(SigningAlgorithm::ES256, &params).unwrap(), key);
    assert_eq!(
        verification_key(SigningAlgorithm::ES384, &params).unwrap_err(),
        TokenError::VerificationFailed(Mismatch::KeyAlgorithm)
    );
}

#[test]
fn unusable_keys_are_refused() {
    let key = |params| get_uncompressed_public_key_from_cosekey(&params).unwrap_err();
    assert_eq!(key(vec![]), TokenError::InvalidKey(KeyFault::UnknownCurve));
    assert_eq!(
        key(vec![param(-1, KeyValue::Integer(3))]),
        TokenError::InvalidKey(KeyFault::UnknownCurve)
    );
    assert_eq!(
        key(vec![param(-1, KeyValue::Integer(1)), param(-2, KeyValue::Bytes(vec![0; 32]))]),
        TokenError::InvalidKey(KeyFault::P256Length)
    );
    assert_eq!(
        key(vec![
            param(-1, KeyValue::Integer(2)),
            param(-2, KeyValue::Bytes(vec![0; 48])),
            param(-3, KeyValue::Bytes(vec![0; 47])),
        ]),
        TokenError::InvalidKey(KeyFault::P384Length)
    );
}

struct Signer {
    pair: EcdsaKeyPair,
    encoded: Vec<u8>,
}

fn signer(algorithm: &'static EcdsaSigningAlgorithm, curve: iana::EllipticCurve, n: usize) -> Signer {
    let rng = SystemRandom::new();
    let document = EcdsaKeyPair::generate_pkcs8(algorithm, &rng).unwrap();
    let pair = EcdsaKeyPair::from_pkcs8(algorithm, document.as_ref(), &rng).unwrap();
    let point = pair.public_key().as_ref().to_vec();
    let key = CoseKeyBuilder::new_ec2_pub_key(
        curve,
        point[1..1 + n].to_vec(),
        point[1 + n..].to_vec(),
    )
    .build();
    Signer { pair, encoded: key.to_vec().unwrap() }
}

fn message(signer: &Signer, alg: i64, aad: &[u8]) -> CoseSign1 {
    let protected = vec![0xa1, 0x01, 0x38, 0x22];
    let payload = vec![7u8; 300];
    let tbs = coset::sig_structure_data(
        coset::SignatureContext::CoseSign1,
        coset::ProtectedHeader {
            original_data: Some(protected.clone()),
            header: coset::Header::default(),
        },
        None,
        aad,
        &payload,
    );
    let signature = signer.pair.sign(&SystemRandom::new(), &tbs).unwrap().as_ref().to_vec();
    CoseSign1 {
        alg: Some(CoseAlgorithm::Assigned(alg)),
        protected,
        payload: Some(payload),
        signature,
    }
}

#[test]
fn p384_signatures_verify() {
    let s = signer(&ECDSA_P384_SHA384_FIXED_SIGNING, iana::EllipticCurve::P_384, 48);
    let mut m = message(&s, -35, b"aad");
    assert_eq!(verify_coset_signature(&m, &s.encoded, b"aad"), Ok(()));
    assert_eq!(
        verify_coset_signature(&m, &s.encoded, b"other"),
        Err(TokenError::VerificationFailed(Mismatch::P384Signature))
    );
    m.alg = Some(CoseAlgorithm::Assigned(-7));
    assert_eq!(
        verify_coset_signature(&m, &s.encoded, b"aad"),
        Err(TokenError::VerificationFailed(Mismatch::KeyAlgorithm))
    );
    m.alg = Some(CoseAlgorithm::Assigned(-36));
    assert_eq!(
        verify_coset_signature(&m, &s.encoded, b"aad"),
        Err(TokenError::VerificationFailed(Mismatch::KeyAlgorithm))
    );
}

#[test]
fn p256_signatures_verify() {
    let s = signer(&ECDSA_P256_SHA256_FIXED_SIGNING, iana::EllipticCurve::P_256, 32);
    let mut m = message(&s, -7, b"");
    assert_eq!(verify_coset_signature(&m, &s.encoded, b""), Ok(()));
    m.signature[0] ^= 1;
    assert_eq!(
        verify_coset_signature(&m, &s.encoded, b""),
        Err(TokenError::VerificationFailed(Mismatch::P256Signature))
    );
    let verifier = RustCryptoVerifier::new(SigningAlgorithm::ES256, &s.encoded);
    let signature = s.pair.sign(&SystemRandom::new(), b"data").unwrap().as_ref().to_vec();
    assert_eq!(verifier.verify(&signature, b"data"), Ok(()));
    assert!(verifier.verify(&signature, b"date").is_err());
}

#[test]
fn messages_without_a_known_algorithm_are_refused() {
    let mut m = CoseSign1 { alg: None, protected: vec![], payload: None, signature: vec![] };
    assert_eq!(
        verify_coset_signature(&m, b"", b""),
        Err(TokenError::InvalidAlgorithm(None))
    );
    for alg in [
        CoseAlgorithm::Assigned(-8),
        CoseAlgorithm::PrivateUse(-70000),
        CoseAlgorithm::Text("x".to_string()),
    ] {
        m.alg = Some(alg.clone());
        assert_eq!(
            verify_coset_signature(&m, b"", b""),
            Err(TokenError::InvalidAlgorithm(Some(alg)))
        );
    }
}

#[test]
fn undecodable_keys_are_refused() {
    let m = CoseSign1 {
        alg: Some(CoseAlgorithm::Assigned(-7)),
        protected: vec![],
        payload: None,
        signature: vec![],
    };
    assert_eq!(verify_coset_signature(&m, b"", b""), Err(TokenError::Cbor));
    assert_eq!(verify_coset_signature(&m, &[0x01], b""), Err(TokenError::Cose));
    // A COSE key without parameters.
    let key = coset::CoseKey::from_cbor_value(Value::Map(vec![(Value::from(1), Value::from(2))]));
    let encoded = key.unwrap().to_vec().unwrap();
    assert_eq!(
        verify_coset_signature(&m, &encoded, b""),
        Err(TokenError::InvalidKey(KeyFault::UnknownCurve))
    );
}

#[test]
fn outcomes_of_signatures() {
    assert_eq!(signature_result(SigningAlgorithm::ES256, true), Ok(()));
    assert_eq!(signature_result(SigningAlgorithm::ES512, true), Err(TokenError::NotImplemented));
}

fn hex_bytes(text: &str) -> Vec<u8> {
    (0..text.len() / 2).map(|i| u8::from_str_radix(&text[2 * i..2 * i + 2], 16).unwrap()).collect()
}

#[test]
fn digests_are_verified() {
    for (alg, digest) in [
        ("sha-256", "ba7816bf8f01cfea414140de5dae2223b00361a396177a9cb410ff61f20015ad"),
        (
            "sha-384",
            "cb00753f45a35e8bb5a03d699ac65007272c32ab0eded163\
             1a8b605a43ff5bed8086072ba1e7cc2358baeca134c825a7",
        ),
        (
            "sha-512",
            "ddaf35a193617abacc417349ae20413112e6fa4e89a97ea20a9eeee64b55d39a\
             2192992a274fc1a836ba3c23a3feebbd454d4423643ce80e2a9ac94fa54ca49f",
        ),
    ] {
        assert_eq!(verify_digest(b"abc", &hex_bytes(digest), alg), Ok(()));
        assert_eq!(
            verify_digest(b"abd", &hex_bytes(digest), alg),
            Err(TokenError::VerificationFailed(Mismatch::Challenge))
        );
    }
    assert_eq!(verify_digest(b"abc", b"", "md5"), Err(TokenError::InvalidTokenFormat));
    assert_eq!(compare_digest(b"x", b"x"), Ok(()));
}

#[test]
fn driver_requests_are_filled() {
    let empty = RsiMeasurement::new_empty(3);
    assert_eq!((empty.index, empty.data_len, empty.data), (3, 0, [0u8; 64]));
    let some = RsiMeasurement::new_from_data(2, b"abc");
    assert_eq!((some.index, some.data_len), (2, 3));
    assert_eq!(&some.data[..4], b"abc\0");
    let request = RsiAttestation::new(&[5; 64], 4096);
    assert_eq!((request.challenge, request.token_len), ([5; 64], 4096));
    let key = RsiSealingKey::new(0xf5, 9);
    assert_eq!((key.flags, key.svn, key.realm_sealing_key), (5, 9, [0; 32]));
}

#[test]
fn realm_configuration_in_words() {
    let mut config = RsiRealmConfig::default();
    assert_eq!(
        config.describe(),
        format!("ipa_bits: 0 hash_algo: sha256 rpv: {}", "00".repeat(64))
    );
    config.ipa_bits = 48;
    config.hash_algo = 1;
    config.rpv = [0xa9; 64];
    assert_eq!(
        config.describe(),
        format!("ipa_bits: 48 hash_algo: sha512 rpv: {}", "a9".repeat(64))
    );
    config.hash_algo = 2;
    assert!(config.describe().contains("hash_algo: unknown"));
}

#[test]
fn interface_versions_have_two_parts() {
    assert_eq!(abi_version_get_major(0x8001_0002), 1);
    assert_eq!(abi_version_get_minor(0x8001_0002), 2);
    assert_eq!(abi_version_get_major(u64::MAX), 0x7fff);
    assert_eq!(abi_version_get_minor(u64::MAX), 0xffff);
}
