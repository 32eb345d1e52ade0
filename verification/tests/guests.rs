//! What a payload may ask of its virtual machine.
use realm_virt::microdroid::arm_cca::{
    display_realm_config, display_realm_measurements, extend_measurements_for_payload,
    is_arm_cca_supported, measurement_slots, payload_measurements, ApexData, ApkData,
    MicrodroidData,
};
use realm_virt::microdroid::payload_service::{
    provisioning_step, ProvisioningAction, ProvisioningError, ProvisioningEvent,
    ProvisioningPhase, ServiceError, VmPayloadService,
};
use realm_virt::microdroid::provisioning::{
    assets_path, is_ca_cert_path_valid, is_destination_path_valid, is_url_valid,
    run_provisioning_command, secure_chown_chmod, AccessError,
};
use realm_virt::path::{join, path_components, starts_with};
use realm_virt::rsi::kernel::RsiRealmConfig;

fn hex_bytes(text: &str) -> Vec<u8> {
    (0..text.len() / 2).map(|i| u8::from_str_radix(&text[2 * i..2 * i + 2], 16).unwrap()).collect()
}

#[test]
fn payloads_are_measured_by_code_and_authority() {
    let data = MicrodroidData {
        apk_data: ApkData { root_hash: vec![1, 2], cert_hash: vec![0x11] },
        extra_apks_data: vec![ApkData { root_hash: vec![3], cert_hash: vec![0x12, 0x13] }],
        apex_data: vec![ApexData { root_digest: vec![5], public_key: vec![0x15] }],
    };
    assert_eq!(data.collect(true), vec![1, 2, 3, 5]);
    assert_eq!(data.collect(false), vec![0x11, 0x12, 0x13, 0x15]);
    let measured = extend_measurements_for_payload(&data);
    assert_eq!(measured.len(), 2);
    assert!(measured.iter().all(|m| m.index == 2 && m.data_len == 64));
    let code = "c45d7fc7d2d87449b948b8717cc9dac8fefdc5e29a9b38970d96fd6984ba9c74\
                8e86a99260c1c16b7a2fa1f2f68538c8cfa2d223237f020bd5708172ccd03709";
    let authority = "feec935931e42976e05019f19a13aad1d734af8470112ed14c272c8c3f1fbd4f\
                     ed76a230ce759125e0041378e9c6f89ca7e2570e749fea16cf601ee3c1e71487";
    assert_eq!(measured[0].data.to_vec(), hex_bytes(code));
    assert_eq!(measured[1].data.to_vec(), hex_bytes(authority));
    let given = payload_measurements(&[1; 64], &[2; 64]);
    assert_eq!((given[0].data, given[1].data), ([1; 64], [2; 64]));
}

#[test]
fn the_first_probe_decides() {
    let mut known = None;
    assert!(is_arm_cca_supported(&mut known, true));
    assert!(is_arm_cca_supported(&mut known, false));
    let mut known = None;
    assert!(!is_arm_cca_supported(&mut known, false));
    assert!(!is_arm_cca_supported(&mut known, true));
}

#[test]
fn realm_state_is_logged() {
    assert_eq!(measurement_slots(), [0, 1, 2, 3, 4]);
    let lines = display_realm_measurements(&[vec![0xde, 0xad], vec![], vec![1], vec![2], vec![3]]);
    assert_eq!(lines, vec!["RIM: dead", "REM0: ", "REM1: 01", "REM2: 02", "REM3: 03"]);
    let text = display_realm_config(&RsiRealmConfig::default());
    assert!(text.starts_with("Realm Config: ipa_bits: 0 hash_algo: sha256 rpv: 00"));
}

#[test]
fn destinations_stay_in_the_store() {
    for good in ["", "file", "a/b", "./a", "a/./b", "a//b", "...", "a/..b", "a/"] {
        assert!(is_destination_path_valid(good), "{}", good);
    }
    for bad in ["/", "/a", "..", "a/..", "../a", "a/../b", "./.."] {
        assert!(!is_destination_path_valid(bad), "{}", bad);
    }
}

#[test]
fn certificates_are_assets() {
    assert_eq!(assets_path(), "/mnt/apk/assets");
    let valid = is_ca_cert_path_valid;
    assert!(valid(Some("/mnt/apk/assets"), Some("/mnt/apk/assets/ca.pem")));
    assert!(valid(Some("/mnt/apk/assets"), Some("/mnt/apk/assets")));
    assert!(!valid(Some("/mnt/apk/assets"), Some("/mnt/apk/assets2/ca.pem")));
    assert!(!valid(Some("/mnt/apk/assets"), Some("/mnt/apk")));
    assert!(!valid(None, Some("/mnt/apk/assets/ca.pem")));
    assert!(!valid(Some("/mnt/apk/assets"), None));
}

#[test]
fn paths_have_components() {
    assert_eq!(path_components("/a//b/./c/"), vec!["/", "a", "b", "c"]);
    assert_eq!(path_components("./a/.."), vec![".", "a", ".."]);
    assert_eq!(path_components(""), Vec::<String>::new());
    assert!(starts_with("/a/b", "/a/"));
    assert!(!starts_with("a/b", "/a"));
    assert_eq!(join("/a", "b"), "/a/b");
    assert_eq!(join("/a/", "b"), "/a/b");
    assert_eq!(join("/a", "/b"), "/b");
    assert_eq!(join("", "b"), "b");
    assert_eq!(join("/a", ""), "/a/");
}

#[test]
fn urls_are_parsed() {
    assert!(is_url_valid("https://example.com:1337/secret"));
    assert!(!is_url_valid("example"));
    assert!(!is_url_valid("https://"));
}

#[test]
fn the_client_gets_its_arguments() {
    assert_eq!(
        run_provisioning_command("u", "/ca", "/dest"),
        vec!["-u", "u", "-r", "/ca", "-o", "/dest"]
    );
    assert_eq!(secure_chown_chmod("a/b"), Ok(()));
    for refused in ["/a", "/", "../x", "a/..", "a/../b", ".."] {
        assert_eq!(secure_chown_chmod(refused), Err(AccessError::InvalidPath));
    }
    assert_eq!(secure_chown_chmod("a..b/..c"), Ok(()));
}

#[test]
fn secrets_have_a_limited_size() {
    let s = VmPayloadService::new(false);
    assert_eq!(s.get_vm_instance_secret_size(0), Ok(0));
    assert_eq!(s.get_vm_instance_secret_size(32), Ok(32));
    assert_eq!(s.get_vm_instance_secret_size(33), Err(ServiceError::IllegalArgument));
    assert_eq!(s.get_vm_instance_secret_size(-1), Err(ServiceError::IllegalArgument));
    assert_eq!(s.get_vm_instance_secret(Some(vec![1])), Ok(vec![1]));
    assert_eq!(s.get_vm_instance_secret(None), Err(ServiceError::SecretDerivation));
}

#[test]
fn boot_stage_interfaces_are_restricted() {
    let open = VmPayloadService::new(true);
    let closed = VmPayloadService::new(false);
    let unsupported = Err(ServiceError::UnsupportedOperation);
    assert_eq!(open.get_dice_attestation_chain(true, Some(vec![1])), unsupported);
    assert_eq!(open.get_dice_attestation_chain(false, Some(vec![1])), Ok(vec![1]));
    assert_eq!(open.get_dice_attestation_chain(false, None), Err(ServiceError::IllegalState));
    assert_eq!(closed.get_dice_attestation_chain(false, None), Err(ServiceError::Security));
    assert_eq!(open.get_dice_attestation_cdi(true, vec![2]), unsupported);
    assert_eq!(open.get_dice_attestation_cdi(false, vec![2]), Ok(vec![2]));
    assert_eq!(closed.get_dice_attestation_cdi(false, vec![2]), Err(ServiceError::Security));
    assert_eq!(closed.request_attestation(false), Ok(()));
    assert_eq!(closed.request_attestation(true), Err(ServiceError::UnsupportedOperation));
    assert_eq!(open.attestation_request(Some(vec![1]), Some(vec![2])), Ok((vec![1], vec![2])));
    assert_eq!(
        open.attestation_request(Some(vec![1]), None),
        Err(ServiceError::PrepareCsrAndKey)
    );
    assert_eq!(
        open.attestation_request(None, Some(vec![1])),
        Err(ServiceError::PrepareCsrAndKey)
    );
}

#[test]
fn realm_interfaces_need_a_realm() {
    let s = VmPayloadService::new(false);
    assert_eq!(s.request_arm_cca_attestation(true), Ok(()));
    assert_eq!(s.request_arm_cca_attestation(false), Err(ServiceError::UnsupportedOperation));
    assert_eq!(s.arm_cca_token(Some(vec![1])), Ok(vec![1]));
    assert_eq!(s.arm_cca_token(None), Err(ServiceError::AttestationToken));
    assert_eq!(s.extend_arm_cca_rem_slot(true, 1, &[0; 64]), Ok(1));
    assert_eq!(s.extend_arm_cca_rem_slot(true, -1, &[]), Ok(u32::MAX));
    assert_eq!(
        s.extend_arm_cca_rem_slot(true, 1, &[0; 65]),
        Err(ServiceError::IllegalArgument)
    );
    assert_eq!(
        s.extend_arm_cca_rem_slot(false, 1, &[0; 65]),
        Err(ServiceError::UnsupportedOperation)
    );
    assert_eq!(s.arm_cca_rem_extended(true), Ok(()));
    assert_eq!(s.arm_cca_rem_extended(false), Err(ServiceError::ExtendMeasurement));
}

#[test]
fn provisioning_is_checked_and_prepared() {
    let s = VmPayloadService::new(false);
    let assets = Some("/mnt/apk/assets");
    let cert = Some("/mnt/apk/assets/ca.pem");
    let job = s.start_provisioning(true, "https://a/b", "ca.pem", "d/file", assets, cert).unwrap();
    assert_eq!((job.url.as_str(), job.destination.as_str()), ("https://a/b", "d/file"));
    assert_eq!(
        job.args,
        vec![
            "-u", "https://a/b", "-r", "/mnt/apk/assets/ca.pem", "-o",
            "/mnt/encryptedstore/d/file",
        ]
    );
    let refusal = |r: Result<_, ServiceError>| r.map(|_: ()| ()).unwrap_err();
    let ask = |cca, url, dest, cert| {
        refusal(s.start_provisioning(cca, url, "ca.pem", dest, assets, cert).map(|_| ()))
    };
    assert_eq!(ask(false, "https://a", "f", cert), ServiceError::UnsupportedOperation);
    assert_eq!(ask(true, "https://a", "../f", cert), ServiceError::IllegalArgument);
    assert_eq!(ask(true, "https://a", "f", Some("/etc/ca.pem")), ServiceError::IllegalArgument);
    assert_eq!(ask(true, "nonsense", "f", cert), ServiceError::IllegalArgument);
    assert!(s.prepare_provisioning(true, "nonsense", true, "c", "f", assets, cert).is_ok());
    assert!(s.prepare_provisioning(true, "https://a", false, "c", "f", assets, cert).is_err());
}

#[test]
fn provisioning_reports_its_outcome() {
    let run = |events: &[ProvisioningEvent]| {
        let mut phase = ProvisioningPhase::Client;
        let mut action = ProvisioningAction::Succeed;
        for e in events {
            action = provisioning_step(&mut phase, *e);
        }
        action
    };
    let done = ProvisioningEvent::Client(Some(true));
    let failure = ProvisioningAction::Fail(ProvisioningError::SystemError);
    assert_eq!(run(&[ProvisioningEvent::Client(None)]), failure);
    assert_eq!(run(&[ProvisioningEvent::Client(Some(false))]), failure);
    assert_eq!(run(&[done]), ProvisioningAction::SyncAndOpenStore);
    assert_eq!(
        run(&[done, ProvisioningEvent::Store(false)]),
        ProvisioningAction::Fail(ProvisioningError::EncryptedstoreIsNotEnabled)
    );
    let opened = ProvisioningEvent::Store(true);
    assert_eq!(run(&[done, opened]), ProvisioningAction::GrantAccess);
    assert_eq!(run(&[done, opened, ProvisioningEvent::Access(false)]), failure);
    assert_eq!(
        run(&[done, opened, ProvisioningEvent::Access(true)]),
        ProvisioningAction::Succeed
    );
}
