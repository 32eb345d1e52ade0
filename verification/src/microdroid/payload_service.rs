//! What a payload may ask for, and what it is answered.
use crate::microdroid::provisioning::{
    assets_path, is_ca_cert_path_valid, is_destination_path_valid, is_url_valid,
    run_provisioning_command, url_parses, valid_destination, valid_destination_cannot_escape,
    ENCRYPTEDSTORE_MOUNTPOINT, VM_APK_CONTENTS_PATH,
};
use crate::path::{is_within, join, joined, place};
use crate::text::texts;
use vstd::prelude::*;

verus! {

/// The largest size of a secret in bytes.
pub const MAX_SECRET_SIZE: i32 = 32;

/// The length of a challenge in bytes.
pub const ARM_CCA_CHALLENGE_LEN: i32 = 64;

/// The largest length of a measurement in bytes.
pub const ARM_CCA_MAX_MEASUREMENT_LEN: i32 = 64;

/// How a request is refused.
#[derive(Debug, Clone, Copy, PartialEq, Eq, Structural)]
pub enum ServiceError {
    /// An argument is out of range.
    IllegalArgument,
    /// The machine does not offer this.
    UnsupportedOperation,
    /// The payload may not use this.
    Security,
    /// There is nothing to answer with.
    IllegalState,
    /// No secret could be derived.
    SecretDerivation,
    /// The key and the request for its certificate could not be prepared.
    PrepareCsrAndKey,
    /// No attestation token could be got.
    AttestationToken,
    /// The measurement could not be extended.
    ExtendMeasurement,
}

/// What a payload is told when fetching fails.
#[derive(Debug, Clone, Copy, PartialEq, Eq, Structural)]
pub enum ProvisioningError {
    SystemError,
    EncryptedstoreIsNotEnabled,
}

/// Answers the requests of a payload.
#[derive(Debug)]
pub struct VmPayloadService {
    allow_restricted_apis: bool,
}

/// A slot number as an unsigned number of the same 32 bits.
pub open spec fn unsigned_index(index: i32) -> int {
    if index < 0 {
        index + 0x1_0000_0000
    } else {
        index as int
    }
}

/// What is fetched from where to where.
#[derive(Debug)]
pub struct ProvisioningJob {
    pub url: String,
    pub destination: String,
    /// The arguments of the program that fetches.
    pub args: Vec<String>,
}

/// What is wrong with a request to fetch, in the order in which it is looked at.
pub open spec fn provisioning_refusal(
    arm_cca: bool,
    url_valid: bool,
    destination: Seq<char>,
    assets: Option<Seq<char>>,
    cert: Option<Seq<char>>,
) -> Option<ServiceError> {
    if !arm_cca {
        Some(ServiceError::UnsupportedOperation)
    } else if !valid_destination(destination) {
        Some(ServiceError::IllegalArgument)
    } else if !(assets is Some && cert is Some && is_within(cert->0, assets->0)) {
        Some(ServiceError::IllegalArgument)
    } else if !url_valid {
        Some(ServiceError::IllegalArgument)
    } else {
        None
    }
}

/// The contents of an optional string.
pub open spec fn contents(s: Option<&str>) -> Option<Seq<char>> {
    match s {
        Some(t) => Some(t@),
        None => None,
    }
}

/// Whether `r` is the answer to a request to fetch.
pub open spec fn answers_provisioning(
    r: Result<ProvisioningJob, ServiceError>,
    arm_cca: bool,
    url: Seq<char>,
    url_valid: bool,
    ca_cert: Seq<char>,
    destination: Seq<char>,
    assets: Option<Seq<char>>,
    cert: Option<Seq<char>>,
) -> bool {
    let refusal = provisioning_refusal(arm_cca, url_valid, destination, assets, cert);
    match r {
        Ok(job) => {
            &&& refusal is None
            &&& job.url@ == url
            &&& job.destination@ == destination
            &&& texts(job.args@) == seq![
                "-u"@,
                url,
                "-r"@,
                joined(joined(VM_APK_CONTENTS_PATH@, "assets"@), ca_cert),
                "-o"@,
                joined(ENCRYPTEDSTORE_MOUNTPOINT@, destination),
            ]
        },
        Err(e) => refusal == Some(e),
    }
}

impl VmPayloadService {
    pub closed spec fn restricted_apis_allowed(&self) -> bool {
        self.allow_restricted_apis
    }

    /// A service for a payload that may or may not use restricted interfaces.
    pub fn new(allow_restricted_apis: bool) -> (r: VmPayloadService)
        ensures
            r.restricted_apis_allowed() == allow_restricted_apis,
    {
        VmPayloadService { allow_restricted_apis }
    }

    /// Whether restricted interfaces may be used.
    pub fn check_restricted_apis_allowed(&self) -> (r: Result<(), ServiceError>)
        ensures
            r == if self.restricted_apis_allowed() {
                Ok::<(), ServiceError>(())
            } else {
                Err::<(), ServiceError>(ServiceError::Security)
            },
    {
        if self.allow_restricted_apis {
            Ok(())
        } else {
            Err(ServiceError::Security)
        }
    }

    /// The size of the secret to derive.
    pub fn get_vm_instance_secret_size(&self, size: i32) -> (r: Result<usize, ServiceError>)
        ensures
            match r {
                Ok(n) => 0 <= size <= MAX_SECRET_SIZE && n == size,
                Err(e) => !(0 <= size <= MAX_SECRET_SIZE) && e == ServiceError::IllegalArgument,
            },
    {
        if size < 0 || size > MAX_SECRET_SIZE {
            return Err(ServiceError::IllegalArgument);
        }
        Ok(size as usize)
    }

    /// The answer with a secret, `None` where none could be derived.
    pub fn get_vm_instance_secret(&self, derived: Option<Vec<u8>>) -> (r: Result<
        Vec<u8>,
        ServiceError,
    >)
        ensures
            r == match derived {
                Some(s) => Ok::<Vec<u8>, ServiceError>(s),
                None => Err::<Vec<u8>, ServiceError>(ServiceError::SecretDerivation),
            },
    {
        match derived {
            Some(s) => Ok(s),
            None => Err(ServiceError::SecretDerivation),
        }
    }

    /// The certificate chain of the boot stages: not in a realm, and only where restricted
    /// interfaces may be used and there is a chain.
    pub fn get_dice_attestation_chain(&self, arm_cca: bool, bcc: Option<Vec<u8>>) -> (r: Result<
        Vec<u8>,
        ServiceError,
    >)
        ensures
            r == if arm_cca {
                Err::<Vec<u8>, ServiceError>(ServiceError::UnsupportedOperation)
            } else if !self.restricted_apis_allowed() {
                Err::<Vec<u8>, ServiceError>(ServiceError::Security)
            } else {
                match bcc {
                    Some(b) => Ok::<Vec<u8>, ServiceError>(b),
                    None => Err::<Vec<u8>, ServiceError>(ServiceError::IllegalState),
                }
            },
    {
        if arm_cca {
            return Err(ServiceError::UnsupportedOperation);
        }
        match self.check_restricted_apis_allowed() {
            Ok(()) => {},
            Err(e) => {
                return Err(e);
            },
        }
        match bcc {
            Some(b) => Ok(b),
            None => Err(ServiceError::IllegalState),
        }
    }

    /// The attestation secret of the boot stages: not in a realm, and only where restricted
    /// interfaces may be used.
    pub fn get_dice_attestation_cdi(&self, arm_cca: bool, cdi: Vec<u8>) -> (r: Result<
        Vec<u8>,
        ServiceError,
    >)
        ensures
            r == if arm_cca {
                Err::<Vec<u8>, ServiceError>(ServiceError::UnsupportedOperation)
            } else if !self.restricted_apis_allowed() {
                Err::<Vec<u8>, ServiceError>(ServiceError::Security)
            } else {
                Ok::<Vec<u8>, ServiceError>(cdi)
            },
    {
        if arm_cca {
            return Err(ServiceError::UnsupportedOperation);
        }
        match self.check_restricted_apis_allowed() {
            Ok(()) => Ok(cdi),
            Err(e) => Err(e),
        }
    }

    /// Whether attestation by the boot stages may be requested: not in a realm.
    pub fn request_attestation(&self, arm_cca: bool) -> (r: Result<(), ServiceError>)
        ensures
            r == if arm_cca {
                Err::<(), ServiceError>(ServiceError::UnsupportedOperation)
            } else {
                Ok::<(), ServiceError>(())
            },
    {
        if arm_cca {
            Err(ServiceError::UnsupportedOperation)
        } else {
            Ok(())
        }
    }

    /// The private key and the encoded request for its certificate, each `None` where it could not
    /// be prepared.
    pub fn attestation_request(&self, private_key: Option<Vec<u8>>, csr: Option<Vec<u8>>) -> (r:
        Result<(Vec<u8>, Vec<u8>), ServiceError>)
        ensures
            r == if private_key is Some && csr is Some {
                Ok::<(Vec<u8>, Vec<u8>), ServiceError>((private_key->0, csr->0))
            } else {
                Err::<(Vec<u8>, Vec<u8>), ServiceError>(ServiceError::PrepareCsrAndKey)
            },
    {
        match private_key {
            Some(k) => match csr {
                Some(c) => Ok((k, c)),
                None => Err(ServiceError::PrepareCsrAndKey),
            },
            None => Err(ServiceError::PrepareCsrAndKey),
        }
    }

    /// Whether attestation by the realm may be requested: only in a realm.
    pub fn request_arm_cca_attestation(&self, arm_cca: bool) -> (r: Result<(), ServiceError>)
        ensures
            r == if arm_cca {
                Ok::<(), ServiceError>(())
            } else {
                Err::<(), ServiceError>(ServiceError::UnsupportedOperation)
            },
    {
        if arm_cca {
            Ok(())
        } else {
            Err(ServiceError::UnsupportedOperation)
        }
    }

    /// The answer with an attestation token, `None` where none could be got.
    pub fn arm_cca_token(&self, token: Option<Vec<u8>>) -> (r: Result<Vec<u8>, ServiceError>)
        ensures
            r == match token {
                Some(t) => Ok::<Vec<u8>, ServiceError>(t),
                None => Err::<Vec<u8>, ServiceError>(ServiceError::AttestationToken),
            },
    {
        match token {
            Some(t) => Ok(t),
            None => Err(ServiceError::AttestationToken),
        }
    }

    /// The slot to extend by a measurement: only in a realm, and by no more bytes than a
    /// measurement has.
    pub fn extend_arm_cca_rem_slot(&self, arm_cca: bool, index: i32, measurement: &[u8]) -> (r:
        Result<u32, ServiceError>)
        ensures
            match r {
                Ok(slot) => arm_cca && measurement@.len() <= ARM_CCA_MAX_MEASUREMENT_LEN && slot
                    == unsigned_index(index),
                Err(e) => if !arm_cca {
                    e == ServiceError::UnsupportedOperation
                } else {
                    measurement@.len() > ARM_CCA_MAX_MEASUREMENT_LEN && e
                        == ServiceError::IllegalArgument
                },
            },
    {
        if !arm_cca {
            return Err(ServiceError::UnsupportedOperation);
        }
        if measurement.len() > ARM_CCA_MAX_MEASUREMENT_LEN as usize {
            return Err(ServiceError::IllegalArgument);
        }
        let slot: u32 = if index < 0 {
            (index as i64 + 0x1_0000_0000) as u32
        } else {
            index as u32
        };
        Ok(slot)
    }

    /// The answer on extending a measurement, from whether it succeeded.
    pub fn arm_cca_rem_extended(&self, extended: bool) -> (r: Result<(), ServiceError>)
        ensures
            r == if extended {
                Ok::<(), ServiceError>(())
            } else {
                Err::<(), ServiceError>(ServiceError::ExtendMeasurement)
            },
    {
        if extended {
            Ok(())
        } else {
            Err(ServiceError::ExtendMeasurement)
        }
    }

    /// What to fetch: only in a realm, into the encrypted store, with a certificate out of the
    /// package's assets. `assets` and `cert` are the real paths of the assets and of the
    /// certificate within them.
    pub fn start_provisioning(
        &self,
        arm_cca: bool,
        url: &str,
        ca_cert: &str,
        destination: &str,
        assets: Option<&str>,
        cert: Option<&str>,
    ) -> (r: Result<ProvisioningJob, ServiceError>)
        ensures
            answers_provisioning(
                r,
                arm_cca,
                url@,
                url_parses(url@),
                ca_cert@,
                destination@,
                contents(assets),
                contents(cert),
            ),
    {
        let url_valid: bool = is_url_valid(url);
        self.prepare_provisioning(arm_cca, url, url_valid, ca_cert, destination, assets, cert)
    }

    /// What to fetch, from whether the URL is one.
    pub fn prepare_provisioning(
        &self,
        arm_cca: bool,
        url: &str,
        url_valid: bool,
        ca_cert: &str,
        destination: &str,
        assets: Option<&str>,
        cert: Option<&str>,
    ) -> (r: Result<ProvisioningJob, ServiceError>)
        ensures
            answers_provisioning(
                r,
                arm_cca,
                url@,
                url_valid,
                ca_cert@,
                destination@,
                contents(assets),
                contents(cert),
            ),
    {
        if !arm_cca {
            return Err(ServiceError::UnsupportedOperation);
        }
        if !is_destination_path_valid(destination) {
            return Err(ServiceError::IllegalArgument);
        }
        if !is_ca_cert_path_valid(assets, cert) {
            return Err(ServiceError::IllegalArgument);
        }
        if !url_valid {
            return Err(ServiceError::IllegalArgument);
        }
        let destination_path: String = join(ENCRYPTEDSTORE_MOUNTPOINT, destination);
        let assets_dir: String = assets_path();
        let ca_cert_path: String = join(assets_dir.as_str(), ca_cert);
        let args: Vec<String> = run_provisioning_command(
            url,
            ca_cert_path.as_str(),
            destination_path.as_str(),
        );
        Ok(ProvisioningJob { url: url.to_owned(), destination: destination.to_owned(), args })
    }
}

// ---------------------------------------------------------------------------
// Fetching
// ---------------------------------------------------------------------------

/// What fetching waits for.
#[derive(Debug, Clone, Copy, PartialEq, Eq, Structural)]
pub enum ProvisioningPhase {
    /// That the program has ended.
    Client,
    /// That the encrypted store was opened.
    Store,
    /// That access to the fetched file was granted.
    Access,
    /// Nothing: it has ended.
    Ended,
}

/// What happened while fetching.
#[derive(Debug, Clone, Copy, PartialEq, Eq, Structural)]
pub enum ProvisioningEvent {
    /// Whether the program succeeded, where it could be launched.
    Client(Option<bool>),
    /// Whether the encrypted store could be opened.
    Store(bool),
    /// Whether access to the fetched file was granted.
    Access(bool),
}

/// What is done next while fetching.
#[derive(Debug, Clone, Copy, PartialEq, Eq, Structural)]
pub enum ProvisioningAction {
    /// Writes buffers to disk and opens the encrypted store.
    SyncAndOpenStore,
    /// Grants access to the fetched file.
    GrantAccess,
    /// Tells the payload of an error.
    Fail(ProvisioningError),
    /// Tells the payload of success.
    Succeed,
}

/// Whether an event is one that fetching waits for.
pub open spec fn provisioning_awaits(phase: ProvisioningPhase, event: ProvisioningEvent) -> bool {
    match phase {
        ProvisioningPhase::Client => event is Client,
        ProvisioningPhase::Store => event is Store,
        ProvisioningPhase::Access => event is Access,
        ProvisioningPhase::Ended => false,
    }
}

/// What an event leads to.
pub open spec fn provisioning_next(event: ProvisioningEvent) -> (
    ProvisioningPhase,
    ProvisioningAction,
) {
    match event {
        ProvisioningEvent::Client(outcome) => if outcome == Some(true) {
            (ProvisioningPhase::Store, ProvisioningAction::SyncAndOpenStore)
        } else {
            (ProvisioningPhase::Ended, ProvisioningAction::Fail(ProvisioningError::SystemError))
        },
        ProvisioningEvent::Store(opened) => if opened {
            (ProvisioningPhase::Access, ProvisioningAction::GrantAccess)
        } else {
            (
                ProvisioningPhase::Ended,
                ProvisioningAction::Fail(ProvisioningError::EncryptedstoreIsNotEnabled),
            )
        },
        ProvisioningEvent::Access(granted) => if granted {
            (ProvisioningPhase::Ended, ProvisioningAction::Succeed)
        } else {
            (ProvisioningPhase::Ended, ProvisioningAction::Fail(ProvisioningError::SystemError))
        },
    }
}

/// Decides what is done next while fetching.
pub fn provisioning_step(phase: &mut ProvisioningPhase, event: ProvisioningEvent) -> (r:
    ProvisioningAction)
    requires
        provisioning_awaits(*old(phase), event),
    ensures
        (*final(phase), r) == provisioning_next(event),
{
    let (next, action): (ProvisioningPhase, ProvisioningAction) = match event {
        ProvisioningEvent::Client(outcome) => match outcome {
            Some(true) => (ProvisioningPhase::Store, ProvisioningAction::SyncAndOpenStore),
            _ => (
                ProvisioningPhase::Ended,
                ProvisioningAction::Fail(ProvisioningError::SystemError),
            ),
        },
        ProvisioningEvent::Store(opened) => {
            if opened {
                (ProvisioningPhase::Access, ProvisioningAction::GrantAccess)
            } else {
                (
                    ProvisioningPhase::Ended,
                    ProvisioningAction::Fail(ProvisioningError::EncryptedstoreIsNotEnabled),
                )
            }
        },
        ProvisioningEvent::Access(granted) => {
            if granted {
                (ProvisioningPhase::Ended, ProvisioningAction::Succeed)
            } else {
                (
                    ProvisioningPhase::Ended,
                    ProvisioningAction::Fail(ProvisioningError::SystemError),
                )
            }
        },
    };
    *phase = next;
    action
}

// ---------------------------------------------------------------------------
// Laws
// ---------------------------------------------------------------------------

/// Nothing is fetched to a place outside the encrypted store.
pub proof fn accepted_provisioning_stays_in_the_store(
    arm_cca: bool,
    url_valid: bool,
    destination: Seq<char>,
    assets: Option<Seq<char>>,
    cert: Option<Seq<char>>,
)
    requires
        provisioning_refusal(arm_cca, url_valid, destination, assets, cert) is None,
    ensures
        ({
            let store = place(ENCRYPTEDSTORE_MOUNTPOINT@);
            let target = place(joined(ENCRYPTEDSTORE_MOUNTPOINT@, destination));
            store.len() <= target.len() && target.take(store.len() as int) == store
        }),
{
    valid_destination_cannot_escape(ENCRYPTEDSTORE_MOUNTPOINT@, destination);
}

/// What fetching waits for after the given events.
pub open spec fn provisioning_after(events: Seq<ProvisioningEvent>) -> ProvisioningPhase {
    if events.len() == 0 {
        ProvisioningPhase::Client
    } else {
        provisioning_next(events.last()).0
    }
}

/// Whether each of the events was one that fetching waited for.
pub open spec fn provisioning_accepts(events: Seq<ProvisioningEvent>) -> bool
    decreases events.len(),
{
    events.len() > 0 ==> {
        &&& provisioning_accepts(events.drop_last())
        &&& provisioning_awaits(provisioning_after(events.drop_last()), events.last())
    }
}

/// A payload is told of success exactly after the program succeeded, the encrypted store was
/// opened and access was granted, in this order.
pub proof fn success_needs_every_step(events: Seq<ProvisioningEvent>)
    requires
        provisioning_accepts(events),
        events.len() > 0,
    ensures
        provisioning_next(events.last()).1 is Succeed <==> events == seq![
            ProvisioningEvent::Client(Some(true)),
            ProvisioningEvent::Store(true),
            ProvisioningEvent::Access(true),
        ],
{
    let success = seq![
        ProvisioningEvent::Client(Some(true)),
        ProvisioningEvent::Store(true),
        ProvisioningEvent::Access(true),
    ];
    if provisioning_next(events.last()).1 is Succeed {
        let second = events.drop_last();
        assert(second.len() > 0);
        let first = second.drop_last();
        assert(provisioning_accepts(second));
        assert(first.len() > 0);
        assert(provisioning_accepts(first));
        let none = first.drop_last();
        if none.len() > 0 {
            assert(provisioning_accepts(none));
        }
        assert(none.len() == 0);
        assert(events[0] == first.last());
        assert(events[1] == second.last());
        assert(events =~= success);
    }
}

/// A request to fetch is refused as unsupported exactly outside of realms, and as illegal exactly
/// where, in a realm, the destination could leave the store, the certificate is not known to be an
/// asset, or the URL is none; every other request is accepted.
pub proof fn requests_to_fetch_are_refused_for_cause(
    arm_cca: bool,
    url_valid: bool,
    destination: Seq<char>,
    assets: Option<Seq<char>>,
    cert: Option<Seq<char>>,
)
    ensures
        ({
            let r = provisioning_refusal(arm_cca, url_valid, destination, assets, cert);
            let asset = assets is Some && cert is Some && is_within(cert->0, assets->0);
            &&& r == Some(ServiceError::UnsupportedOperation) <==> !arm_cca
            &&& r == Some(ServiceError::IllegalArgument) <==> arm_cca && !(valid_destination(
                destination,
            ) && asset && url_valid)
            &&& r is None <==> arm_cca && valid_destination(destination) && asset && url_valid
        }),
{
}

/// What is fetched on an accepted request is what was asked for: from the URL, with the certificate
/// out of the package's assets, to the destination in the encrypted store.
pub proof fn accepted_requests_are_carried_out(
    r: Result<ProvisioningJob, ServiceError>,
    arm_cca: bool,
    url: Seq<char>,
    url_valid: bool,
    ca_cert: Seq<char>,
    destination: Seq<char>,
    assets: Option<Seq<char>>,
    cert: Option<Seq<char>>,
)
    requires
        answers_provisioning(
            r,
            arm_cca,
            url,
            url_valid,
            ca_cert,
            destination,
            assets,
            cert,
        ),
    ensures
        r is Ok <==> provisioning_refusal(arm_cca, url_valid, destination, assets, cert) is None,
        r matches Err(e) ==> provisioning_refusal(arm_cca, url_valid, destination, assets, cert)
            == Some(e),
        r matches Ok(job) ==> {
            &&& job.url@ == url
            &&& job.destination@ == destination
            &&& job.args@.len() == 6
            &&& job.args@[0]@ == "-u"@ && job.args@[1]@ == url
            &&& job.args@[2]@ == "-r"@ && job.args@[3]@ == joined(
                joined(VM_APK_CONTENTS_PATH@, "assets"@),
                ca_cert,
            )
            &&& job.args@[4]@ == "-o"@ && job.args@[5]@ == joined(
                ENCRYPTEDSTORE_MOUNTPOINT@,
                destination,
            )
        },
{
    if r is Ok {
        let args = r->Ok_0.args@;
        let view = texts(args);
        assert(view.len() == args.len());
        assert(view[0] == args[0]@ && view[1] == args[1]@ && view[2] == args[2]@);
        assert(view[3] == args[3]@ && view[4] == args[4]@ && view[5] == args[5]@);
    }
}

/// A program that fails or cannot be launched, and access that cannot be granted, is a system error;
/// a store that cannot be opened is told apart. Each step that succeeds leads to the next.
pub proof fn each_step_of_fetching_can_fail(outcome: Option<bool>, ok: bool)
    ensures
        provisioning_next(ProvisioningEvent::Client(outcome)) == if outcome is Some && outcome->0 {
            (ProvisioningPhase::Store, ProvisioningAction::SyncAndOpenStore)
        } else {
            (ProvisioningPhase::Ended, ProvisioningAction::Fail(ProvisioningError::SystemError))
        },
        provisioning_next(ProvisioningEvent::Store(true)) == (
            ProvisioningPhase::Access,
            ProvisioningAction::GrantAccess,
        ),
        provisioning_next(ProvisioningEvent::Store(false)) == (
            ProvisioningPhase::Ended,
            ProvisioningAction::Fail(ProvisioningError::EncryptedstoreIsNotEnabled),
        ),
        provisioning_next(ProvisioningEvent::Access(true)) == (
            ProvisioningPhase::Ended,
            ProvisioningAction::Succeed,
        ),
        provisioning_next(ProvisioningEvent::Access(false)) == (
            ProvisioningPhase::Ended,
            ProvisioningAction::Fail(ProvisioningError::SystemError),
        ),
        provisioning_awaits(ProvisioningPhase::Client, ProvisioningEvent::Client(outcome)),
        provisioning_awaits(ProvisioningPhase::Store, ProvisioningEvent::Store(ok)),
        provisioning_awaits(ProvisioningPhase::Access, ProvisioningEvent::Access(ok)),
{
}

/// A slot number keeps its 32 bits: as an unsigned number it differs by a multiple of two to the
/// power of 32 and is not negative.
pub proof fn slot_numbers_keep_their_bits(index: i32)
    ensures
        0 <= unsigned_index(index) < 0x1_0000_0000,
        (unsigned_index(index) - index) % 0x1_0000_0000 == 0,
{
}

/// An optional text is taken as it is.
pub proof fn optional_texts_are_taken_whole(s: &str)
    ensures
        contents(Some(s)) == Some(s@),
        contents(None) is None,
{
}

} // verus!
