//! Claims of platform, software components and realm, taken out of tokens.
use crate::rsi::token::{
    ClaimData, ClaimsMap, TokenError, CCA_PLAT_CHALLENGE, CCA_PLAT_CONFIGURATION,
    CCA_PLAT_HASH_ALGO_ID, CCA_PLAT_IMPLEMENTATION_ID, CCA_PLAT_INSTANCE_ID, CCA_PLAT_PROFILE,
    CCA_PLAT_SECURITY_LIFECYCLE, CCA_PLAT_VERIFICATION_SERVICE, CCA_REALM_CHALLENGE,
    CCA_REALM_HASH_ALGO_ID, CCA_REALM_INITIAL_MEASUREMENT, CCA_REALM_PERSONALIZATION_VALUE,
    CCA_REALM_PROFILE, CCA_REALM_PUB_KEY, CCA_REALM_PUB_KEY_HASH_ALGO_ID,
    CCA_SW_COMP_HASH_ALGORITHM, CCA_SW_COMP_MEASUREMENT_VALUE, CCA_SW_COMP_SIGNER_ID,
    CCA_SW_COMP_TITLE, CCA_SW_COMP_VERSION, CLAIM_COUNT_REALM_EXTENSIBLE_MEASUREMENTS,
};
use vstd::prelude::*;

verus! {

broadcast use vstd::std_specs::btree::group_btree_axioms;

/// The value of a claim, where there is one.
pub open spec fn claim(claims: ClaimsMap, key: u32) -> Option<ClaimData> {
    if claims@.contains_key(key) {
        Some(claims@[key].data)
    } else {
        None
    }
}

/// A claim that has to be a byte string.
pub open spec fn bytes_claim(claims: ClaimsMap, key: u32) -> Result<Seq<u8>, TokenError> {
    match claim(claims, key) {
        None => Err(TokenError::MissingPlatSwClaim(key)),
        Some(ClaimData::Bstr(b)) => Ok(b@),
        Some(_) => Err(TokenError::ClaimDataMismatch),
    }
}

/// A claim that has to be a text.
pub open spec fn text_claim(claims: ClaimsMap, key: u32) -> Result<Seq<char>, TokenError> {
    match claim(claims, key) {
        None => Err(TokenError::MissingPlatSwClaim(key)),
        Some(ClaimData::Text(t)) => Ok(t@),
        Some(_) => Err(TokenError::ClaimDataMismatch),
    }
}

/// A claim that has to be an integer.
pub open spec fn int_claim(claims: ClaimsMap, key: u32) -> Result<i64, TokenError> {
    match claim(claims, key) {
        None => Err(TokenError::MissingPlatSwClaim(key)),
        Some(ClaimData::Int64(n)) => Ok(n),
        Some(_) => Err(TokenError::ClaimDataMismatch),
    }
}

/// The first of two errors that is there.
pub open spec fn first(a: Option<TokenError>, b: Option<TokenError>) -> Option<TokenError> {
    if a is Some {
        a
    } else {
        b
    }
}

/// The error of an outcome.
pub open spec fn error_of<T>(outcome: Result<T, TokenError>) -> Option<TokenError> {
    match outcome {
        Ok(_) => None,
        Err(e) => Some(e),
    }
}

fn get_claim(key: u32, claims: &ClaimsMap) -> (r: Result<&ClaimData, TokenError>)
    ensures
        match r {
            Ok(d) => claim(*claims, key) == Some(*d),
            Err(e) => claim(*claims, key) is None && e == TokenError::MissingPlatSwClaim(key),
        },
{
    match claims.get(&key) {
        Some(c) => Ok(&c.data),
        None => Err(TokenError::MissingPlatSwClaim(key)),
    }
}

fn get_bytes(key: u32, claims: &ClaimsMap) -> (r: Result<Vec<u8>, TokenError>)
    ensures
        match r {
            Ok(v) => bytes_claim(*claims, key) == Ok::<Seq<u8>, TokenError>(v@),
            Err(e) => bytes_claim(*claims, key) == Err::<Seq<u8>, TokenError>(e),
        },
{
    match get_claim(key, claims) {
        Ok(d) => match d {
            ClaimData::Bstr(b) => Ok(vstd::slice::slice_to_vec(b.as_slice())),
            _ => Err(TokenError::ClaimDataMismatch),
        },
        Err(e) => Err(e),
    }
}

fn get_text(key: u32, claims: &ClaimsMap) -> (r: Result<String, TokenError>)
    ensures
        match r {
            Ok(v) => text_claim(*claims, key) == Ok::<Seq<char>, TokenError>(v@),
            Err(e) => text_claim(*claims, key) == Err::<Seq<char>, TokenError>(e),
        },
{
    match get_claim(key, claims) {
        Ok(d) => match d {
            ClaimData::Text(t) => Ok(t.clone()),
            _ => Err(TokenError::ClaimDataMismatch),
        },
        Err(e) => Err(e),
    }
}

fn get_int(key: u32, claims: &ClaimsMap) -> (r: Result<i64, TokenError>)
    ensures
        r == int_claim(*claims, key),
{
    match get_claim(key, claims) {
        Ok(d) => match d {
            ClaimData::Int64(n) => Ok(*n),
            _ => Err(TokenError::ClaimDataMismatch),
        },
        Err(e) => Err(e),
    }
}

/// Claims of a platform token.
#[derive(Debug)]
pub struct PlatClaims {
    /// The digest of the realm's public key.
    pub challenge: Vec<u8>,
    /// The URL of a verification service.
    pub verification_service: String,
    pub profile: String,
    pub instance_id: Vec<u8>,
    pub implementation_id: Vec<u8>,
    /// The security life cycle of the platform.
    pub lifecycle: i64,
    pub configuration: Vec<u8>,
    /// The hash algorithm of the software components that name none themselves.
    pub hash_algo: String,
}

/// What is wrong with the claims of a platform token, in the order in which they are read.
pub open spec fn plat_error(claims: ClaimsMap) -> Option<TokenError> {
    first(
        error_of(bytes_claim(claims, CCA_PLAT_CHALLENGE)),
        first(
            error_of(text_claim(claims, CCA_PLAT_VERIFICATION_SERVICE)),
            first(
                error_of(text_claim(claims, CCA_PLAT_PROFILE)),
                first(
                    error_of(bytes_claim(claims, CCA_PLAT_INSTANCE_ID)),
                    first(
                        error_of(bytes_claim(claims, CCA_PLAT_IMPLEMENTATION_ID)),
                        first(
                            error_of(int_claim(claims, CCA_PLAT_SECURITY_LIFECYCLE)),
                            first(
                                error_of(bytes_claim(claims, CCA_PLAT_CONFIGURATION)),
                                error_of(text_claim(claims, CCA_PLAT_HASH_ALGO_ID)),
                            ),
                        ),
                    ),
                ),
            ),
        ),
    )
}

impl PlatClaims {
    /// Takes the claims out of a platform token.
    pub fn from_raw_claims(claims: &ClaimsMap) -> (r: Result<Self, TokenError>)
        ensures
            match r {
                Ok(c) => {
                    &&& bytes_claim(*claims, CCA_PLAT_CHALLENGE) == Ok::<_, TokenError>(
                        c.challenge@,
                    )
                    &&& text_claim(*claims, CCA_PLAT_VERIFICATION_SERVICE) == Ok::<_, TokenError>(
                        c.verification_service@,
                    )
                    &&& text_claim(*claims, CCA_PLAT_PROFILE) == Ok::<_, TokenError>(c.profile@)
                    &&& bytes_claim(*claims, CCA_PLAT_INSTANCE_ID) == Ok::<_, TokenError>(
                        c.instance_id@,
                    )
                    &&& bytes_claim(*claims, CCA_PLAT_IMPLEMENTATION_ID) == Ok::<_, TokenError>(
                        c.implementation_id@,
                    )
                    &&& int_claim(*claims, CCA_PLAT_SECURITY_LIFECYCLE) == Ok::<_, TokenError>(
                        c.lifecycle,
                    )
                    &&& bytes_claim(*claims, CCA_PLAT_CONFIGURATION) == Ok::<_, TokenError>(
                        c.configuration@,
                    )
                    &&& text_claim(*claims, CCA_PLAT_HASH_ALGO_ID) == Ok::<_, TokenError>(
                        c.hash_algo@,
                    )
                },
                Err(e) => plat_error(*claims) == Some(e),
            },
    {
        Ok(
            PlatClaims {
                challenge: get_bytes(CCA_PLAT_CHALLENGE, claims)?,
                verification_service: get_text(CCA_PLAT_VERIFICATION_SERVICE, claims)?,
                profile: get_text(CCA_PLAT_PROFILE, claims)?,
                instance_id: get_bytes(CCA_PLAT_INSTANCE_ID, claims)?,
                implementation_id: get_bytes(CCA_PLAT_IMPLEMENTATION_ID, claims)?,
                lifecycle: get_int(CCA_PLAT_SECURITY_LIFECYCLE, claims)?,
                configuration: get_bytes(CCA_PLAT_CONFIGURATION, claims)?,
                hash_algo: get_text(CCA_PLAT_HASH_ALGO_ID, claims)?,
            },
        )
    }
}

/// A software component of the platform.
#[derive(Debug)]
pub struct PlatSwComponent {
    /// What kind of component it is.
    pub ty: String,
    /// The hash algorithm of its measurement.
    pub hash_algo: String,
    /// Its measurement.
    pub value: Vec<u8>,
    pub version: String,
    /// Who signed it.
    pub signer_id: Vec<u8>,
}

/// The hash algorithm of a component: the platform's where the component names none.
pub open spec fn component_hash_algo(
    claims: ClaimsMap,
    plat_hash_algo: Seq<char>,
) -> Result<Seq<char>, TokenError> {
    if claim(claims, CCA_SW_COMP_HASH_ALGORITHM) is None {
        Ok(plat_hash_algo)
    } else {
        text_claim(claims, CCA_SW_COMP_HASH_ALGORITHM)
    }
}

/// What is wrong with the claims of a software component, in the order in which they are read.
pub open spec fn component_error(
    claims: ClaimsMap,
    plat_hash_algo: Seq<char>,
) -> Option<TokenError> {
    first(
        error_of(text_claim(claims, CCA_SW_COMP_TITLE)),
        first(
            error_of(component_hash_algo(claims, plat_hash_algo)),
            first(
                error_of(bytes_claim(claims, CCA_SW_COMP_MEASUREMENT_VALUE)),
                first(
                    error_of(text_claim(claims, CCA_SW_COMP_VERSION)),
                    error_of(bytes_claim(claims, CCA_SW_COMP_SIGNER_ID)),
                ),
            ),
        ),
    )
}

impl PlatSwComponent {
    /// Takes the claims of a software component out of a platform token whose own hash algorithm
    /// is `plat_hash_algo`.
    pub fn from_raw_claims(claims: &ClaimsMap, plat_hash_algo: &String) -> (r: Result<
        Self,
        TokenError,
    >)
        ensures
            match r {
                Ok(c) => {
                    &&& text_claim(*claims, CCA_SW_COMP_TITLE) == Ok::<_, TokenError>(c.ty@)
                    &&& component_hash_algo(*claims, plat_hash_algo@) == Ok::<_, TokenError>(
                        c.hash_algo@,
                    )
                    &&& bytes_claim(*claims, CCA_SW_COMP_MEASUREMENT_VALUE) == Ok::<_, TokenError>(
                        c.value@,
                    )
                    &&& text_claim(*claims, CCA_SW_COMP_VERSION) == Ok::<_, TokenError>(c.version@)
                    &&& bytes_claim(*claims, CCA_SW_COMP_SIGNER_ID) == Ok::<_, TokenError>(
                        c.signer_id@,
                    )
                },
                Err(e) => component_error(*claims, plat_hash_algo@) == Some(e),
            },
    {
        let ty: String = get_text(CCA_SW_COMP_TITLE, claims)?;
        let hash_algo: String = match get_claim(CCA_SW_COMP_HASH_ALGORITHM, claims) {
            Ok(_) => get_text(CCA_SW_COMP_HASH_ALGORITHM, claims)?,
            Err(_) => plat_hash_algo.clone(),
        };
        Ok(
            PlatSwComponent {
                ty,
                hash_algo,
                value: get_bytes(CCA_SW_COMP_MEASUREMENT_VALUE, claims)?,
                version: get_text(CCA_SW_COMP_VERSION, claims)?,
                signer_id: get_bytes(CCA_SW_COMP_SIGNER_ID, claims)?,
            },
        )
    }
}

/// Claims of a realm token.
#[derive(Debug)]
pub struct RealmClaims {
    pub challenge: Vec<u8>,
    pub profile: String,
    pub personalization_value: Vec<u8>,
    /// The hash algorithm of measurements.
    pub hash_algo: String,
    /// The hash algorithm that ties the realm token to the platform token.
    pub pub_key_hash_algo: String,
    /// The key that verifies the realm token.
    pub pub_key: Vec<u8>,
    /// The initial measurement.
    pub rim: Vec<u8>,
    /// The extensible measurements.
    pub rems: [Vec<u8>; CLAIM_COUNT_REALM_EXTENSIBLE_MEASUREMENTS],
}

/// What is wrong with the extensible measurements and the claims of a realm token, in the order
/// in which they are read.
pub open spec fn realm_error(claims: ClaimsMap, measurement_claims: ClaimsMap) -> Option<
    TokenError,
> {
    first(
        error_of(bytes_claim(measurement_claims, 0)),
        first(
            error_of(bytes_claim(measurement_claims, 1)),
            first(
                error_of(bytes_claim(measurement_claims, 2)),
                first(
                    error_of(bytes_claim(measurement_claims, 3)),
                    first(
                        error_of(bytes_claim(claims, CCA_REALM_CHALLENGE)),
                        first(
                            error_of(text_claim(claims, CCA_REALM_PROFILE)),
                            first(
                                error_of(bytes_claim(claims, CCA_REALM_PERSONALIZATION_VALUE)),
                                first(
                                    error_of(text_claim(claims, CCA_REALM_HASH_ALGO_ID)),
                                    first(
                                        error_of(
                                            text_claim(claims, CCA_REALM_PUB_KEY_HASH_ALGO_ID),
                                        ),
                                        first(
                                            error_of(bytes_claim(claims, CCA_REALM_PUB_KEY)),
                                            error_of(
                                                bytes_claim(claims, CCA_REALM_INITIAL_MEASUREMENT),
                                            ),
                                        ),
                                    ),
                                ),
                            ),
                        ),
                    ),
                ),
            ),
        ),
    )
}

impl RealmClaims {
    /// Takes the claims out of a realm token, and the extensible measurements out of the claims
    /// that hold them by their index.
    pub fn from_raw_claims(claims: &ClaimsMap, measurement_claims: &ClaimsMap) -> (r: Result<
        Self,
        TokenError,
    >)
        ensures
            match r {
                Ok(c) => {
                    &&& bytes_claim(*claims, CCA_REALM_CHALLENGE) == Ok::<_, TokenError>(
                        c.challenge@,
                    )
                    &&& text_claim(*claims, CCA_REALM_PROFILE) == Ok::<_, TokenError>(c.profile@)
                    &&& bytes_claim(*claims, CCA_REALM_PERSONALIZATION_VALUE) == Ok::<
                        _,
                        TokenError,
                    >(c.personalization_value@)
                    &&& text_claim(*claims, CCA_REALM_HASH_ALGO_ID) == Ok::<_, TokenError>(
                        c.hash_algo@,
                    )
                    &&& text_claim(*claims, CCA_REALM_PUB_KEY_HASH_ALGO_ID) == Ok::<_, TokenError>(
                        c.pub_key_hash_algo@,
                    )
                    &&& bytes_claim(*claims, CCA_REALM_PUB_KEY) == Ok::<_, TokenError>(c.pub_key@)
                    &&& bytes_claim(*claims, CCA_REALM_INITIAL_MEASUREMENT) == Ok::<_, TokenError>(
                        c.rim@,
                    )
                    &&& forall|i: u32|
                        i < CLAIM_COUNT_REALM_EXTENSIBLE_MEASUREMENTS ==> #[trigger] bytes_claim(
                            *measurement_claims,
                            i,
                        ) == Ok::<_, TokenError>(c.rems@[i as int]@)
                },
                Err(e) => realm_error(*claims, *measurement_claims) == Some(e),
            },
    {
        let rem0: Vec<u8> = get_bytes(0, measurement_claims)?;
        let rem1: Vec<u8> = get_bytes(1, measurement_claims)?;
        let rem2: Vec<u8> = get_bytes(2, measurement_claims)?;
        let rem3: Vec<u8> = get_bytes(3, measurement_claims)?;
        Ok(
            RealmClaims {
                challenge: get_bytes(CCA_REALM_CHALLENGE, claims)?,
                profile: get_text(CCA_REALM_PROFILE, claims)?,
                personalization_value: get_bytes(CCA_REALM_PERSONALIZATION_VALUE, claims)?,
                hash_algo: get_text(CCA_REALM_HASH_ALGO_ID, claims)?,
                pub_key_hash_algo: get_text(CCA_REALM_PUB_KEY_HASH_ALGO_ID, claims)?,
                pub_key: get_bytes(CCA_REALM_PUB_KEY, claims)?,
                rim: get_bytes(CCA_REALM_INITIAL_MEASUREMENT, claims)?,
                rems: [rem0, rem1, rem2, rem3],
            },
        )
    }
}

// ---------------------------------------------------------------------------
// Laws
// ---------------------------------------------------------------------------

/// A claim is read exactly where it is there with a value of the kind that it has to have, and then
/// it is that very value; a missing claim is told by its key, a value of another kind is a mismatch.
pub proof fn claims_are_read_by_their_kind(claims: ClaimsMap, key: u32)
    ensures
        !claims@.contains_key(key) ==> {
            &&& bytes_claim(claims, key) == Err::<Seq<u8>, _>(TokenError::MissingPlatSwClaim(key))
            &&& text_claim(claims, key) == Err::<Seq<char>, _>(TokenError::MissingPlatSwClaim(key))
            &&& int_claim(claims, key) == Err::<i64, _>(TokenError::MissingPlatSwClaim(key))
        },
        claims@.contains_key(key) ==> ({
            let data = claims@[key].data;
            &&& match data {
                ClaimData::Bstr(b) => bytes_claim(claims, key) == Ok::<_, TokenError>(b@),
                _ => bytes_claim(claims, key) == Err::<Seq<u8>, _>(TokenError::ClaimDataMismatch),
            }
            &&& match data {
                ClaimData::Text(t) => text_claim(claims, key) == Ok::<_, TokenError>(t@),
                _ => text_claim(claims, key) == Err::<Seq<char>, _>(TokenError::ClaimDataMismatch),
            }
            &&& match data {
                ClaimData::Int64(n) => int_claim(claims, key) == Ok::<_, TokenError>(n),
                _ => int_claim(claims, key) == Err::<i64, _>(TokenError::ClaimDataMismatch),
            }
        }),
{
}

/// Claims of a platform are complete exactly where each of the eight can be read, and otherwise the
/// first that cannot, in the order in which they are read, tells what is wrong.
pub proof fn platform_claims_are_complete(claims: ClaimsMap)
    ensures
        ({
            let a = bytes_claim(claims, CCA_PLAT_CHALLENGE);
            let b = text_claim(claims, CCA_PLAT_VERIFICATION_SERVICE);
            let c = text_claim(claims, CCA_PLAT_PROFILE);
            let d = bytes_claim(claims, CCA_PLAT_INSTANCE_ID);
            let e = bytes_claim(claims, CCA_PLAT_IMPLEMENTATION_ID);
            let f = int_claim(claims, CCA_PLAT_SECURITY_LIFECYCLE);
            let g = bytes_claim(claims, CCA_PLAT_CONFIGURATION);
            let h = text_claim(claims, CCA_PLAT_HASH_ALGO_ID);
            let r = plat_error(claims);
            &&& r is None <==> a is Ok && b is Ok && c is Ok && d is Ok && e is Ok && f is Ok
                && g is Ok && h is Ok
            &&& a is Err ==> r == Some(a->Err_0)
            &&& a is Ok && b is Err ==> r == Some(b->Err_0)
            &&& a is Ok && b is Ok && c is Err ==> r == Some(c->Err_0)
            &&& a is Ok && b is Ok && c is Ok && d is Err ==> r == Some(d->Err_0)
            &&& a is Ok && b is Ok && c is Ok && d is Ok && e is Err ==> r == Some(e->Err_0)
            &&& a is Ok && b is Ok && c is Ok && d is Ok && e is Ok && f is Err ==> r == Some(
                f->Err_0,
            )
            &&& a is Ok && b is Ok && c is Ok && d is Ok && e is Ok && f is Ok && g is Err ==> r
                == Some(g->Err_0)
            &&& a is Ok && b is Ok && c is Ok && d is Ok && e is Ok && f is Ok && g is Ok && h
                is Err ==> r == Some(h->Err_0)
        }),
{
}

/// Claims of a software component are complete exactly where each can be read; it may leave out its
/// hash algorithm, which then is the platform's, but must not give another kind of value for it.
pub proof fn component_claims_are_complete(claims: ClaimsMap, plat_hash_algo: Seq<char>)
    ensures
        ({
            let a = text_claim(claims, CCA_SW_COMP_TITLE);
            let b = component_hash_algo(claims, plat_hash_algo);
            let c = bytes_claim(claims, CCA_SW_COMP_MEASUREMENT_VALUE);
            let d = text_claim(claims, CCA_SW_COMP_VERSION);
            let e = bytes_claim(claims, CCA_SW_COMP_SIGNER_ID);
            let r = component_error(claims, plat_hash_algo);
            &&& !claims@.contains_key(CCA_SW_COMP_HASH_ALGORITHM) ==> b == Ok::<_, TokenError>(
                plat_hash_algo,
            )
            &&& claims@.contains_key(CCA_SW_COMP_HASH_ALGORITHM) ==> b == text_claim(
                claims,
                CCA_SW_COMP_HASH_ALGORITHM,
            )
            &&& r is None <==> a is Ok && b is Ok && c is Ok && d is Ok && e is Ok
            &&& a is Err ==> r == Some(a->Err_0)
            &&& a is Ok && b is Err ==> r == Some(b->Err_0)
            &&& a is Ok && b is Ok && c is Err ==> r == Some(c->Err_0)
            &&& a is Ok && b is Ok && c is Ok && d is Err ==> r == Some(d->Err_0)
            &&& a is Ok && b is Ok && c is Ok && d is Ok && e is Err ==> r == Some(e->Err_0)
        }),
{
}

/// Claims of a realm are complete exactly where its four extensible measurements and its seven other
/// claims can be read, and otherwise the first that cannot tells what is wrong, the measurements
/// before the others.
pub proof fn realm_claims_are_complete(claims: ClaimsMap, measurements: ClaimsMap)
    ensures
        ({
            let m0 = bytes_claim(measurements, 0);
            let m1 = bytes_claim(measurements, 1);
            let m2 = bytes_claim(measurements, 2);
            let m3 = bytes_claim(measurements, 3);
            let measured = m0 is Ok && m1 is Ok && m2 is Ok && m3 is Ok;
            let a = bytes_claim(claims, CCA_REALM_CHALLENGE);
            let b = text_claim(claims, CCA_REALM_PROFILE);
            let c = bytes_claim(claims, CCA_REALM_PERSONALIZATION_VALUE);
            let d = text_claim(claims, CCA_REALM_HASH_ALGO_ID);
            let e = text_claim(claims, CCA_REALM_PUB_KEY_HASH_ALGO_ID);
            let f = bytes_claim(claims, CCA_REALM_PUB_KEY);
            let g = bytes_claim(claims, CCA_REALM_INITIAL_MEASUREMENT);
            let r = realm_error(claims, measurements);
            &&& r is None <==> measured && a is Ok && b is Ok && c is Ok && d is Ok && e is Ok && f
                is Ok && g is Ok
            &&& m0 is Err ==> r == Some(m0->Err_0)
            &&& m0 is Ok && m1 is Err ==> r == Some(m1->Err_0)
            &&& m0 is Ok && m1 is Ok && m2 is Err ==> r == Some(m2->Err_0)
            &&& m0 is Ok && m1 is Ok && m2 is Ok && m3 is Err ==> r == Some(m3->Err_0)
            &&& measured && a is Err ==> r == Some(a->Err_0)
            &&& measured && a is Ok && b is Err ==> r == Some(b->Err_0)
            &&& measured && a is Ok && b is Ok && c is Err ==> r == Some(c->Err_0)
            &&& measured && a is Ok && b is Ok && c is Ok && d is Err ==> r == Some(d->Err_0)
            &&& measured && a is Ok && b is Ok && c is Ok && d is Ok && e is Err ==> r == Some(
                e->Err_0,
            )
            &&& measured && a is Ok && b is Ok && c is Ok && d is Ok && e is Ok && f is Err ==> r
                == Some(f->Err_0)
            &&& measured && a is Ok && b is Ok && c is Ok && d is Ok && e is Ok && f is Ok && g
                is Err ==> r == Some(g->Err_0)
        }),
{
}

} // verus!
