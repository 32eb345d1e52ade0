//! Measurements of a payload in a realm.
use crate::bytes::{extend, hex_encode, hex_text};
use crate::rsi::kernel::{
    hash_algo_name, RsiMeasurement, RsiRealmConfig, RSI_REM0_INDEX, RSI_REM1_INDEX, RSI_REM2_INDEX,
    RSI_REM3_INDEX, RSI_RIM_INDEX,
};
use crate::text::{concat, decimal};
use vstd::prelude::*;

verus! {

/// What is known of a package.
#[derive(Debug)]
pub struct ApkData {
    pub root_hash: Vec<u8>,
    pub cert_hash: Vec<u8>,
}

/// What is known of a module of the platform.
#[derive(Debug)]
pub struct ApexData {
    pub root_digest: Vec<u8>,
    pub public_key: Vec<u8>,
}

/// What a virtual machine runs.
#[derive(Debug)]
pub struct MicrodroidData {
    pub apk_data: ApkData,
    pub extra_apks_data: Vec<ApkData>,
    pub apex_data: Vec<ApexData>,
}

/// The hashes of packages, one after the other.
pub open spec fn apk_hashes(apks: Seq<ApkData>, code: bool) -> Seq<u8>
    decreases apks.len(),
{
    if apks.len() == 0 {
        Seq::empty()
    } else {
        apk_hashes(apks.drop_last(), code) + (if code {
            apks.last().root_hash@
        } else {
            apks.last().cert_hash@
        })
    }
}

/// The hashes or keys of modules, one after the other.
pub open spec fn apex_hashes(apexes: Seq<ApexData>, code: bool) -> Seq<u8>
    decreases apexes.len(),
{
    if apexes.len() == 0 {
        Seq::empty()
    } else {
        apex_hashes(apexes.drop_last(), code) + (if code {
            apexes.last().root_digest@
        } else {
            apexes.last().public_key@
        })
    }
}

impl MicrodroidData {
    /// What stands for the code of a payload (its root hashes) or for its authorities (hashes of
    /// certificates and public keys): of the package, of the extra packages and of the modules.
    pub open spec fn measured(self, code: bool) -> Seq<u8> {
        (if code {
            self.apk_data.root_hash@
        } else {
            self.apk_data.cert_hash@
        }) + apk_hashes(self.extra_apks_data@, code) + apex_hashes(self.apex_data@, code)
    }

    /// What stands for the code of a payload, or for its authorities.
    pub fn collect(&self, code: bool) -> (r: Vec<u8>)
        ensures
            r@ == self.measured(code),
    {
        let mut out: Vec<u8> = Vec::new();
        let first: &Vec<u8> = if code {
            &self.apk_data.root_hash
        } else {
            &self.apk_data.cert_hash
        };
        extend(&mut out, first.as_slice(), 0, first.len());
        let ghost start = out@;
        assert(start =~= first@);
        let mut i: usize = 0;
        assert(out@ =~= start + apk_hashes(self.extra_apks_data@.take(0), code));
        while i < self.extra_apks_data.len()
            invariant
                i <= self.extra_apks_data@.len(),
                out@ == start + apk_hashes(self.extra_apks_data@.take(i as int), code),
            decreases self.extra_apks_data@.len() - i,
        {
            let ghost next = self.extra_apks_data@.take(i + 1);
            assert(next.drop_last() =~= self.extra_apks_data@.take(i as int));
            let part: &Vec<u8> = if code {
                &self.extra_apks_data[i].root_hash
            } else {
                &self.extra_apks_data[i].cert_hash
            };
            extend(&mut out, part.as_slice(), 0, part.len());
            assert(out@ =~= start + apk_hashes(next, code));
            i = i + 1;
        }
        assert(self.extra_apks_data@.take(self.extra_apks_data@.len() as int)
            =~= self.extra_apks_data@);
        let ghost middle = out@;
        let mut j: usize = 0;
        assert(out@ =~= middle + apex_hashes(self.apex_data@.take(0), code));
        while j < self.apex_data.len()
            invariant
                j <= self.apex_data@.len(),
                out@ == middle + apex_hashes(self.apex_data@.take(j as int), code),
            decreases self.apex_data@.len() - j,
        {
            let ghost next = self.apex_data@.take(j + 1);
            assert(next.drop_last() =~= self.apex_data@.take(j as int));
            let part: &Vec<u8> = if code {
                &self.apex_data[j].root_digest
            } else {
                &self.apex_data[j].public_key
            };
            extend(&mut out, part.as_slice(), 0, part.len());
            assert(out@ =~= middle + apex_hashes(next, code));
            j = j + 1;
        }
        assert(self.apex_data@.take(self.apex_data@.len() as int) =~= self.apex_data@);
        out
    }
}

/// The SHA-512 digest of a message, as `openssl` computes it.
pub uninterp spec fn openssl_digest(data: Seq<u8>) -> Seq<u8>;

/// `openssl::sha::sha512`: a digest of 64 bytes.
#[verifier::external_body]
fn openssl_sha512(data: &[u8]) -> (r: [u8; 64])
    ensures
        r@ == openssl_digest(data@),
{
    openssl::sha::sha512(data)
}

/// Whether the machine is a realm. The first probe of the interface decides; later ones do not
/// count.
pub fn is_arm_cca_supported(known: &mut Option<bool>, probed: bool) -> (r: bool)
    ensures
        r == match *old(known) {
            Some(k) => k,
            None => probed,
        },
        *final(known) == Some(r),
{
    match *known {
        Some(k) => k,
        None => {
            *known = Some(probed);
            probed
        },
    }
}

/// The measurements that a payload extends its realm by: the digest of its code and then the
/// digest of its authorities, both in the second extensible slot.
pub fn extend_measurements_for_payload(instance_data: &MicrodroidData) -> (r: Vec<RsiMeasurement>)
    ensures
        measures(
            r@,
            openssl_digest(instance_data.measured(true)),
            openssl_digest(instance_data.measured(false)),
        ),
        r@.len() == 2,
        r@[0].index == 2 && r@[1].index == 2,
        r@[0].data_len == 64 && r@[1].data_len == 64,
        r@[0].data@ == openssl_digest(instance_data.measured(true)),
        r@[1].data@ == openssl_digest(instance_data.measured(false)),
{
    let code: Vec<u8> = instance_data.collect(true);
    let authority: Vec<u8> = instance_data.collect(false);
    let code_hash: [u8; 64] = openssl_sha512(code.as_slice());
    let authority_hash: [u8; 64] = openssl_sha512(authority.as_slice());
    payload_measurements(&code_hash, &authority_hash)
}

/// Whether the measurements are two of 64 bytes in the second extensible slot: first the one of
/// the code, then the one of the authorities.
pub open spec fn measures(
    measurements: Seq<RsiMeasurement>,
    code_hash: Seq<u8>,
    authority_hash: Seq<u8>,
) -> bool {
    &&& measurements.len() == 2
    &&& measurements[0].index == RSI_REM1_INDEX
    &&& measurements[0].data_len == 64
    &&& measurements[0].data@ == code_hash
    &&& measurements[1].index == RSI_REM1_INDEX
    &&& measurements[1].data_len == 64
    &&& measurements[1].data@ == authority_hash
}

/// The measurements that a payload extends its realm by, from the digests of its code and of its
/// authorities.
pub fn payload_measurements(code_hash: &[u8; 64], authority_hash: &[u8; 64]) -> (r: Vec<
    RsiMeasurement,
>)
    ensures
        measures(r@, code_hash@, authority_hash@),
{
    let first = RsiMeasurement::new_from_data(RSI_REM1_INDEX, code_hash.as_slice());
    let second = RsiMeasurement::new_from_data(RSI_REM1_INDEX, authority_hash.as_slice());
    assert(first.data@ =~= code_hash@);
    assert(second.data@ =~= authority_hash@);
    let mut out: Vec<RsiMeasurement> = Vec::new();
    out.push(first);
    out.push(second);
    out
}

/// The configuration of a realm, as it is logged.
pub fn display_realm_config(config: &RsiRealmConfig) -> (r: String)
    ensures
        r@ == "Realm Config: "@ + ("ipa_bits: "@ + decimal(config.ipa_bits as nat) + " hash_algo: "@
            + hash_algo_name(config.hash_algo) + " rpv: "@ + hex_text(config.rpv@)),
{
    let text: String = config.describe();
    concat("Realm Config: ", text.as_str())
}

/// The slots of the measurements, in the order in which they are read and logged.
pub fn measurement_slots() -> (r: [u32; 5])
    ensures
        r@ == seq![
            RSI_RIM_INDEX,
            RSI_REM0_INDEX,
            RSI_REM1_INDEX,
            RSI_REM2_INDEX,
            RSI_REM3_INDEX,
        ],
{
    let r: [u32; 5] = [
        RSI_RIM_INDEX,
        RSI_REM0_INDEX,
        RSI_REM1_INDEX,
        RSI_REM2_INDEX,
        RSI_REM3_INDEX,
    ];
    assert(r@ =~= seq![
        RSI_RIM_INDEX,
        RSI_REM0_INDEX,
        RSI_REM1_INDEX,
        RSI_REM2_INDEX,
        RSI_REM3_INDEX,
    ]);
    r
}

/// The name of a measurement, with what separates it from its value.
pub open spec fn slot_label(i: int) -> Seq<char> {
    if i == 0 {
        "RIM: "@
    } else if i == 1 {
        "REM0: "@
    } else if i == 2 {
        "REM1: "@
    } else if i == 3 {
        "REM2: "@
    } else {
        "REM3: "@
    }
}

/// The measurements of a realm, in the order of their slots, as they are logged.
pub fn display_realm_measurements(values: &[Vec<u8>; 5]) -> (r: Vec<String>)
    requires
        forall|i: int| 0 <= i < 5 ==> 2 * (#[trigger] values@[i])@.len() <= isize::MAX,
    ensures
        r@.len() == 5,
        forall|i: int|
            0 <= i < 5 ==> (#[trigger] r@[i])@ == slot_label(i) + hex_text(values@[i]@),
        r@[0]@ == "RIM: "@ + hex_text(values@[0]@),
        r@[1]@ == "REM0: "@ + hex_text(values@[1]@),
        r@[2]@ == "REM1: "@ + hex_text(values@[2]@),
        r@[3]@ == "REM2: "@ + hex_text(values@[3]@),
        r@[4]@ == "REM3: "@ + hex_text(values@[4]@),
{
    let mut out: Vec<String> = Vec::new();
    let mut i: usize = 0;
    while i < 5
        invariant
            i <= 5,
            out@.len() == i,
            forall|k: int| 0 <= k < 5 ==> 2 * (#[trigger] values@[k])@.len() <= isize::MAX,
            forall|k: int|
                0 <= k < i ==> (#[trigger] out@[k])@ == slot_label(k) + hex_text(values@[k]@),
        decreases 5 - i,
    {
        assert(2 * values@[i as int]@.len() <= isize::MAX);
        let digits: String = hex_encode(values[i].as_slice());
        let label: &str = if i == 0 {
            "RIM: "
        } else if i == 1 {
            "REM0: "
        } else if i == 2 {
            "REM1: "
        } else if i == 3 {
            "REM2: "
        } else {
            "REM3: "
        };
        out.push(concat(label, digits.as_str()));
        i = i + 1;
    }
    out
}

// ---------------------------------------------------------------------------
// Laws
// ---------------------------------------------------------------------------

/// Of a payload that is one package and nothing else, the hashes of that package are measured.
pub proof fn single_packages_are_measured(data: MicrodroidData)
    requires
        data.extra_apks_data@.len() == 0,
        data.apex_data@.len() == 0,
    ensures
        data.measured(true) == data.apk_data.root_hash@,
        data.measured(false) == data.apk_data.cert_hash@,
{
    assert(data.measured(true) =~= data.apk_data.root_hash@);
    assert(data.measured(false) =~= data.apk_data.cert_hash@);
}

/// One more extra package adds its hashes, the root hash to the code and the hash of its certificate
/// to the authorities: behind those of the packages before it, and before those of the modules.
pub proof fn every_extra_package_is_measured(
    before: MicrodroidData,
    after: MicrodroidData,
    package: ApkData,
)
    requires
        after.apk_data == before.apk_data,
        after.extra_apks_data@ == before.extra_apks_data@.push(package),
        after.apex_data@ == before.apex_data@,
    ensures
        ({
            let code = before.measured(true).len() - apex_hashes(before.apex_data@, true).len();
            let authority = before.measured(false).len() - apex_hashes(
                before.apex_data@,
                false,
            ).len();
            &&& after.measured(true) == before.measured(true).take(code) + package.root_hash@
                + before.measured(true).skip(code)
            &&& after.measured(false) == before.measured(false).take(authority)
                + package.cert_hash@ + before.measured(false).skip(authority)
        }),
{
    assert(after.extra_apks_data@.drop_last() =~= before.extra_apks_data@);
    let code = before.measured(true).len() - apex_hashes(before.apex_data@, true).len();
    let authority = before.measured(false).len() - apex_hashes(before.apex_data@, false).len();
    assert(after.measured(true) =~= before.measured(true).take(code) + package.root_hash@
        + before.measured(true).skip(code));
    assert(after.measured(false) =~= before.measured(false).take(authority) + package.cert_hash@
        + before.measured(false).skip(authority));
}

/// One more module adds its root digest to the end of the code and its public key to the end of the
/// authorities, whatever packages and modules come before it.
pub proof fn every_module_is_measured(
    before: MicrodroidData,
    after: MicrodroidData,
    module: ApexData,
)
    requires
        after.apk_data == before.apk_data,
        after.extra_apks_data@ == before.extra_apks_data@,
        after.apex_data@ == before.apex_data@.push(module),
    ensures
        after.measured(true) == before.measured(true) + module.root_digest@,
        after.measured(false) == before.measured(false) + module.public_key@,
{
    assert(after.apex_data@.drop_last() =~= before.apex_data@);
    assert(after.measured(true) =~= before.measured(true) + module.root_digest@);
    assert(after.measured(false) =~= before.measured(false) + module.public_key@);
}

/// Modules contribute nothing where there are none, and one more contributes its own digest or key
/// behind those of the others.
pub proof fn module_hashes_follow_each_other(modules: Seq<ApexData>, module: ApexData)
    ensures
        apex_hashes(Seq::empty(), true).len() == 0,
        apex_hashes(Seq::empty(), false).len() == 0,
        apex_hashes(modules.push(module), true) == apex_hashes(modules, true)
            + module.root_digest@,
        apex_hashes(modules.push(module), false) == apex_hashes(modules, false)
            + module.public_key@,
{
    assert(modules.push(module).drop_last() =~= modules);
}

/// Extra packages contribute nothing where there are none, and one more contributes its own hash
/// behind those of the others.
pub proof fn package_hashes_follow_each_other(packages: Seq<ApkData>, package: ApkData)
    ensures
        apk_hashes(Seq::empty(), true).len() == 0,
        apk_hashes(Seq::empty(), false).len() == 0,
        apk_hashes(packages.push(package), true) == apk_hashes(packages, true)
            + package.root_hash@,
        apk_hashes(packages.push(package), false) == apk_hashes(packages, false)
            + package.cert_hash@,
{
    assert(packages.push(package).drop_last() =~= packages);
}

/// Measurements of a payload are two whole digests in the second extensible slot, that of the code
/// before that of the authorities.
pub proof fn payloads_extend_the_second_slot(
    measurements: Seq<RsiMeasurement>,
    code_hash: Seq<u8>,
    authority_hash: Seq<u8>,
)
    requires
        measures(measurements, code_hash, authority_hash),
    ensures
        measurements.len() == 2,
        forall|i: int|
            0 <= i < 2 ==> (#[trigger] measurements[i]).index == 2 && measurements[i].data_len
                == 64,
        measurements[0].data@ == code_hash,
        measurements[1].data@ == authority_hash,
{
}

} // verus!
