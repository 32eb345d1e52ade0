//! Realm measurements.
use realm_virt::rmm_measure::{
    rem_extend, RmmHashAlgorithm, RmmRealmMeasurement, RMM_REALM_MEASUREMENT_WIDTH,
};

#[test]
fn test_measurement_initial_value_is_zero() {
    let meas = RmmRealmMeasurement::new();
    assert_eq!(meas.as_bytes(), &[0u8; RMM_REALM_MEASUREMENT_WIDTH]);
}

#[test]
fn test_measurement_from_bytes() {
    let mut bytes = [0u8; RMM_REALM_MEASUREMENT_WIDTH];
    bytes[0] = 0x12;
    bytes[1] = 0x34;
    bytes[63] = 0xAB;

    let meas = RmmRealmMeasurement::from_bytes(&bytes);
    assert_eq!(meas.as_bytes(), &bytes);
}

#[test]
fn test_rem_extend_with_sha256() {
    let old_value = RmmRealmMeasurement::new();
    let mut new_value = RmmRealmMeasurement::new();
    new_value.as_bytes_mut()[0] = 0x42;

    // Extend with 8 bits of data
    let result = rem_extend(RmmHashAlgorithm::HashSha256, old_value, new_value, 8);

    // Result should not be zero since we hashed non-zero input
    assert_ne!(result.as_bytes(), &[0u8; RMM_REALM_MEASUREMENT_WIDTH]);
}

#[test]
fn test_rem_extend_with_sha512() {
    let old_value = RmmRealmMeasurement::new();
    let mut new_value = RmmRealmMeasurement::new();
    new_value.as_bytes_mut()[0] = 0x42;

    let result = rem_extend(RmmHashAlgorithm::HashSha512, old_value, new_value, 1);

    assert_ne!(result.as_bytes(), &[0u8; RMM_REALM_MEASUREMENT_WIDTH]);
}

#[test]
fn test_rem_extend_deterministic() {
    let old_value = RmmRealmMeasurement::new();
    let mut new_value = RmmRealmMeasurement::new();
    new_value.as_bytes_mut()[0] = 0x42;

    let result1 = rem_extend(RmmHashAlgorithm::HashSha256, old_value, new_value, 1);
    let result2 = rem_extend(RmmHashAlgorithm::HashSha256, old_value, new_value, 1);

    assert_eq!(result1.as_bytes(), result2.as_bytes());
}

#[test]
fn output_sizes_are_those_of_the_digests() {
    assert_eq!(RmmHashAlgorithm::HashSha256.output_size(), 32);
    assert_eq!(RmmHashAlgorithm::HashSha512.output_size(), 64);
}

fn hex_bytes(text: &str) -> Vec<u8> {
    (0..text.len() / 2).map(|i| u8::from_str_radix(&text[2 * i..2 * i + 2], 16).unwrap()).collect()
}

#[test]
fn extension_by_sha256_has_the_expected_value() {
    let mut new_value = RmmRealmMeasurement::new();
    new_value.as_bytes_mut()[0] = 0x42;
    let result = rem_extend(
        RmmHashAlgorithm::HashSha256,
        RmmRealmMeasurement::new(),
        new_value,
        8,
    );
    let expected = "3d0412c99c5c06bc89c8fb153efb2019f8ebfafbe5a157a3f68728d107498846";
    assert_eq!(&result.as_bytes()[..32], &hex_bytes(expected)[..]);
    assert_eq!(&result.as_bytes()[32..], &[0u8; 32]);
}

#[test]
fn extension_by_sha512_has_the_expected_value() {
    let mut new_value = RmmRealmMeasurement::new();
    new_value.as_bytes_mut()[0] = 0x42;
    let result = rem_extend(
        RmmHashAlgorithm::HashSha512,
        RmmRealmMeasurement::new(),
        new_value,
        1,
    );
    let expected = "6d8c5daeaa7872c087183cdbb1134b5ec33e2bfc4317be6c991bc1fbb4489a0d\
                    c63d2065293b38060a67bfbce38ff245c7a94ab6dd4c70d90c5cfa115288cc7b";
    assert_eq!(&result.as_bytes()[..], &hex_bytes(expected)[..]);
}

#[test]
fn extensions_chain_digests() {
    let first = RmmRealmMeasurement::from_bytes_padded(b"abc");
    let second = RmmRealmMeasurement::from_bytes_padded(b"de");
    let once = rem_extend(RmmHashAlgorithm::HashSha256, RmmRealmMeasurement::new(), first, 3);
    let twice = rem_extend(RmmHashAlgorithm::HashSha256, once, second, 2);
    let expected = "e0ed30e8bfe94b861d4bfbc3b329022cc5378a898a018c0eab10b298e6e715a9";
    assert_eq!(&twice.as_bytes()[..32], &hex_bytes(expected)[..]);
}

#[test]
fn extension_ignores_bytes_beyond_the_size() {
    let mut old_value = RmmRealmMeasurement::new();
    let mut new_value = RmmRealmMeasurement::from_bytes_padded(b"xy");
    let plain = rem_extend(RmmHashAlgorithm::HashSha256, old_value, new_value, 2);
    old_value.as_bytes_mut()[32] = 9;
    new_value.as_bytes_mut()[2] = 9;
    let other = rem_extend(RmmHashAlgorithm::HashSha256, old_value, new_value, 2);
    assert_eq!(plain.as_bytes(), other.as_bytes());
}

#[test]
fn extension_ignores_trailing_zeros() {
    let old_value = RmmRealmMeasurement::from_bytes(&[3u8; RMM_REALM_MEASUREMENT_WIDTH]);
    let new_value = RmmRealmMeasurement::from_bytes_padded(b"B");
    for algorithm in [RmmHashAlgorithm::HashSha256, RmmHashAlgorithm::HashSha512] {
        let short = rem_extend(algorithm, old_value, new_value, 1);
        let long = rem_extend(algorithm, old_value, new_value, 64);
        assert_eq!(short.as_bytes(), long.as_bytes());
        let none = rem_extend(algorithm, old_value, new_value, 0);
        assert_ne!(short.as_bytes(), none.as_bytes());
    }
}

#[test]
fn extension_by_sha256_leaves_the_second_half_zero() {
    let full = RmmRealmMeasurement::from_bytes(&[0xffu8; RMM_REALM_MEASUREMENT_WIDTH]);
    let result = rem_extend(RmmHashAlgorithm::HashSha256, full, full, 64);
    assert_ne!(&result.as_bytes()[..32], &[0u8; 32]);
    assert_eq!(&result.as_bytes()[32..], &[0u8; 32]);
}

#[test]
fn padding_cuts_and_fills() {
    let short = RmmRealmMeasurement::from_bytes_padded(&[7u8; 3]);
    assert_eq!(&short.as_bytes()[..4], &[7, 7, 7, 0]);
    let long = RmmRealmMeasurement::from_bytes_padded(&[5u8; 70]);
    assert_eq!(long.as_bytes(), &[5u8; 64]);
    assert_eq!(RmmRealmMeasurement::default(), RmmRealmMeasurement::new());
}
