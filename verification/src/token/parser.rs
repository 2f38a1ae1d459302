//! Typed views of the claims of a token.

use vstd::prelude::*;
use crate::token::{
    CCA_PLAT_CHALLENGE, CCA_PLAT_CONFIGURATION, CCA_PLAT_HASH_ALGO_ID, CCA_PLAT_IMPLEMENTATION_ID,
    CCA_PLAT_INSTANCE_ID, CCA_PLAT_PROFILE, CCA_PLAT_SECURITY_LIFECYCLE,
    CCA_PLAT_VERIFICATION_SERVICE, CCA_REALM_CHALLENGE, CCA_REALM_HASH_ALGO_ID,
    CCA_REALM_INITIAL_MEASUREMENT, CCA_REALM_PERSONALIZATION_VALUE, CCA_REALM_PROFILE,
    CCA_REALM_PUB_KEY, CCA_REALM_PUB_KEY_HASH_ALGO_ID, CCA_SW_COMP_HASH_ALGORITHM,
    CCA_SW_COMP_MEASUREMENT_VALUE, CCA_SW_COMP_SIGNER_ID, CCA_SW_COMP_TITLE, CCA_SW_COMP_VERSION,
    all_present, ClaimData, claims_view, ClaimsMap, ClaimValue, ClaimView, measurement_schema,
    platform_schema, PlatformTokenView, realm_schema, RealmTokenView, same_shape,
    sw_component_schema,
};
use crate::token::error::{Fault, TokenError};

verus! {

broadcast use vstd::std_specs::hash::group_hash_axioms;

/// The value under `key`, where the map holds a slot for `key` that was written: else the claim
/// is missing.
pub open spec fn claim_value(claims: Map<u32, ClaimView>, key: u32) -> Result<ClaimValue, Fault> {
    if claims.contains_key(key) && claims[key].present {
        Ok(claims[key].data)
    } else {
        Err(Fault::MissingMandatoryClaim(key))
    }
}

/// The byte string under `key`: the claim must be there, and hold bytes.
pub open spec fn bstr_claim(claims: Map<u32, ClaimView>, key: u32) -> Result<Seq<u8>, Fault> {
    match claim_value(claims, key) {
        Ok(ClaimValue::Bstr(bytes)) => Ok(bytes),
        Ok(_) => Err(Fault::ClaimDataMisMatchType),
        Err(e) => Err(e),
    }
}

/// The text under `key`: the claim must be there, and hold text.
pub open spec fn text_claim(claims: Map<u32, ClaimView>, key: u32) -> Result<Seq<char>, Fault> {
    match claim_value(claims, key) {
        Ok(ClaimValue::Text(text)) => Ok(text),
        Ok(_) => Err(Fault::ClaimDataMisMatchType),
        Err(e) => Err(e),
    }
}

/// The integer under `key`: the claim must be there, and hold an integer.
pub open spec fn int64_claim(claims: Map<u32, ClaimView>, key: u32) -> Result<i64, Fault> {
    match claim_value(claims, key) {
        Ok(ClaimValue::Int64(number)) => Ok(number),
        Ok(_) => Err(Fault::ClaimDataMisMatchType),
        Err(e) => Err(e),
    }
}

/// The error of a result, if it is one.
pub open spec fn fault_of<T>(result: Result<T, Fault>) -> Option<Fault> {
    match result {
        Ok(_) => None,
        Err(e) => Some(e),
    }
}

/// The first of two possible errors.
pub open spec fn or_fault(first: Option<Fault>, second: Option<Fault>) -> Option<Fault> {
    if first is Some {
        first
    } else {
        second
    }
}

/// A copy of the value of the claim under `key`, or `MissingMandatoryClaim(key)` where the map
/// has no written slot for it.
pub fn get_claim(key: u32, claims: &ClaimsMap) -> (res: Result<ClaimData, TokenError>)
    ensures
        match res {
            Ok(data) => claim_value(claims_view(*claims), key) == Ok::<ClaimValue, Fault>(data@),
            Err(e) => claim_value(claims_view(*claims), key) == Err::<ClaimValue, Fault>(e@),
        },
{
    match claims.get(&key) {
        Some(claim) => {
            if claim.present {
                Ok(claim.data.clone())
            } else {
                Err(TokenError::MissingMandatoryClaim(key))
            }
        },
        None => Err(TokenError::MissingMandatoryClaim(key)),
    }
}

/// A copy of the byte string under `key`.
pub fn get_bstr_claim(key: u32, claims: &ClaimsMap) -> (res: Result<Vec<u8>, TokenError>)
    ensures
        match res {
            Ok(bytes) => bstr_claim(claims_view(*claims), key) == Ok::<Seq<u8>, Fault>(bytes@),
            Err(e) => bstr_claim(claims_view(*claims), key) == Err::<Seq<u8>, Fault>(e@),
        },
{
    match get_claim(key, claims) {
        Ok(data) => match Vec::<u8>::try_from(data) {
            Ok(bytes) => Ok(bytes),
            Err(_) => Err(TokenError::ClaimDataMisMatchType),
        },
        Err(e) => Err(e),
    }
}

/// A copy of the text under `key`.
pub fn get_text_claim(key: u32, claims: &ClaimsMap) -> (res: Result<String, TokenError>)
    ensures
        match res {
            Ok(text) => text_claim(claims_view(*claims), key) == Ok::<Seq<char>, Fault>(text@),
            Err(e) => text_claim(claims_view(*claims), key) == Err::<Seq<char>, Fault>(e@),
        },
{
    match get_claim(key, claims) {
        Ok(data) => match String::try_from(data) {
            Ok(text) => Ok(text),
            Err(_) => Err(TokenError::ClaimDataMisMatchType),
        },
        Err(e) => Err(e),
    }
}

/// The integer under `key`.
pub fn get_int64_claim(key: u32, claims: &ClaimsMap) -> (res: Result<i64, TokenError>)
    ensures
        match res {
            Ok(number) => int64_claim(claims_view(*claims), key) == Ok::<i64, Fault>(number),
            Err(e) => int64_claim(claims_view(*claims), key) == Err::<i64, Fault>(e@),
        },
{
    match get_claim(key, claims) {
        Ok(data) => match i64::try_from(data) {
            Ok(number) => Ok(number),
            Err(_) => Err(TokenError::ClaimDataMisMatchType),
        },
        Err(e) => Err(e),
    }
}

/// The claims of a platform token, each by its name and type.
#[derive(Debug)]
pub struct PlatClaims {
    pub challenge: Vec<u8>,
    pub verification_service: Option<String>,
    pub profile: String,
    pub instance_id: Vec<u8>,
    pub implementation_id: Vec<u8>,
    pub lifecycle: i64,
    pub configuration: Vec<u8>,
    pub hash_algo: String,
}

/// The typed claims of a platform token as mathematics.
pub struct PlatClaimsView {
    pub challenge: Seq<u8>,
    pub verification_service: Option<Seq<char>>,
    pub profile: Seq<char>,
    pub instance_id: Seq<u8>,
    pub implementation_id: Seq<u8>,
    pub lifecycle: i64,
    pub configuration: Seq<u8>,
    pub hash_algo: Seq<char>,
}

/// The text of an optional string.
pub open spec fn optional_text(text: Option<String>) -> Option<Seq<char>> {
    match text {
        Some(t) => Some(t@),
        None => None,
    }
}

/// The text under `key`, where the claim is optional: none where the map holds no slot for
/// `key` that was written; a slot that was written must hold text.
pub open spec fn optional_text_claim(claims: Map<u32, ClaimView>, key: u32) -> Result<
    Option<Seq<char>>,
    Fault,
> {
    match claim_value(claims, key) {
        Ok(ClaimValue::Text(text)) => Ok(Some(text)),
        Ok(_) => Err(Fault::ClaimDataMisMatchType),
        Err(_) => Ok(None),
    }
}

/// A copy of the text under `key`, where the claim is optional: `None` where it was not written.
pub fn get_optional_text_claim(key: u32, claims: &ClaimsMap) -> (res: Result<
    Option<String>,
    TokenError,
>)
    ensures
        match res {
            Ok(text) => optional_text_claim(claims_view(*claims), key) == Ok::<
                Option<Seq<char>>,
                Fault,
            >(optional_text(text)),
            Err(e) => optional_text_claim(claims_view(*claims), key) == Err::<
                Option<Seq<char>>,
                Fault,
            >(e@),
        },
{
    match get_claim(key, claims) {
        Ok(data) => match String::try_from(data) {
            Ok(text) => Ok(Some(text)),
            Err(_) => Err(TokenError::ClaimDataMisMatchType),
        },
        Err(_) => Ok(None),
    }
}

impl View for PlatClaims {
    type V = PlatClaimsView;

    open spec fn view(&self) -> PlatClaimsView {
        PlatClaimsView {
            challenge: self.challenge@,
            verification_service: optional_text(self.verification_service),
            profile: self.profile@,
            instance_id: self.instance_id@,
            implementation_id: self.implementation_id@,
            lifecycle: self.lifecycle,
            configuration: self.configuration@,
            hash_algo: self.hash_algo@,
        }
    }
}

impl PlatClaimsView {
    /// Why a platform token's claims have no typed view: the first failure in the order
    /// challenge, verification service, profile, instance id, implementation id, lifecycle,
    /// configuration, hash algorithm. A claim fails where it is missing or of the wrong kind; the
    /// verification service, which is optional, fails only where it was written with something
    /// else than text.
    pub open spec fn fault(claims: Map<u32, ClaimView>) -> Option<Fault> {
        or_fault(
            fault_of(bstr_claim(claims, CCA_PLAT_CHALLENGE)),
            or_fault(
                fault_of(optional_text_claim(claims, CCA_PLAT_VERIFICATION_SERVICE)),
                or_fault(
                    fault_of(text_claim(claims, CCA_PLAT_PROFILE)),
                    or_fault(
                        fault_of(bstr_claim(claims, CCA_PLAT_INSTANCE_ID)),
                        or_fault(
                            fault_of(bstr_claim(claims, CCA_PLAT_IMPLEMENTATION_ID)),
                            or_fault(
                                fault_of(int64_claim(claims, CCA_PLAT_SECURITY_LIFECYCLE)),
                                or_fault(
                                    fault_of(bstr_claim(claims, CCA_PLAT_CONFIGURATION)),
                                    fault_of(text_claim(claims, CCA_PLAT_HASH_ALGO_ID)),
                                ),
                            ),
                        ),
                    ),
                ),
            ),
        )
    }

    /// The typed view of a platform token's claims of which none fails; the verification service
    /// is there where its claim was written.
    pub open spec fn of(claims: Map<u32, ClaimView>) -> PlatClaimsView {
        PlatClaimsView {
            challenge: bstr_claim(claims, CCA_PLAT_CHALLENGE)->Ok_0,
            verification_service: optional_text_claim(
                claims,
                CCA_PLAT_VERIFICATION_SERVICE,
            )->Ok_0,
            profile: text_claim(claims, CCA_PLAT_PROFILE)->Ok_0,
            instance_id: bstr_claim(claims, CCA_PLAT_INSTANCE_ID)->Ok_0,
            implementation_id: bstr_claim(claims, CCA_PLAT_IMPLEMENTATION_ID)->Ok_0,
            lifecycle: int64_claim(claims, CCA_PLAT_SECURITY_LIFECYCLE)->Ok_0,
            configuration: bstr_claim(claims, CCA_PLAT_CONFIGURATION)->Ok_0,
            hash_algo: text_claim(claims, CCA_PLAT_HASH_ALGO_ID)->Ok_0,
        }
    }
}

impl PlatClaims {
    /// Reads the typed claims out of a platform token's map of claims.
    ///
    /// Every claim but the verification service is required. The verification service is `None`
    /// where its claim was not written; written with something else than text, it is a mismatch
    /// like any other claim of the wrong kind.
    pub fn from_raw_claims(claims: &ClaimsMap) -> (res: Result<Self, TokenError>)
        ensures
            match res {
                Ok(typed) => PlatClaimsView::fault(claims_view(*claims)) is None && typed@
                    == PlatClaimsView::of(claims_view(*claims)),
                Err(e) => PlatClaimsView::fault(claims_view(*claims)) == Some(e@),
            },
    {
        let challenge = match get_bstr_claim(CCA_PLAT_CHALLENGE, claims) {
            Ok(v) => v,
            Err(e) => { return Err(e); },
        };
        let verification_service = match get_optional_text_claim(
            CCA_PLAT_VERIFICATION_SERVICE,
            claims,
        ) {
            Ok(v) => v,
            Err(e) => { return Err(e); },
        };
        let profile = match get_text_claim(CCA_PLAT_PROFILE, claims) {
            Ok(v) => v,
            Err(e) => { return Err(e); },
        };
        let instance_id = match get_bstr_claim(CCA_PLAT_INSTANCE_ID, claims) {
            Ok(v) => v,
            Err(e) => { return Err(e); },
        };
        let implementation_id = match get_bstr_claim(CCA_PLAT_IMPLEMENTATION_ID, claims) {
            Ok(v) => v,
            Err(e) => { return Err(e); },
        };
        let lifecycle: i64 = match get_int64_claim(CCA_PLAT_SECURITY_LIFECYCLE, claims) {
            Ok(v) => v,
            Err(e) => { return Err(e); },
        };
        let configuration = match get_bstr_claim(CCA_PLAT_CONFIGURATION, claims) {
            Ok(v) => v,
            Err(e) => { return Err(e); },
        };
        let hash_algo = match get_text_claim(CCA_PLAT_HASH_ALGO_ID, claims) {
            Ok(v) => v,
            Err(e) => { return Err(e); },
        };
        Ok(
            Self {
                challenge,
                verification_service,
                profile,
                instance_id,
                implementation_id,
                lifecycle,
                configuration,
                hash_algo,
            },
        )
    }
}

/// The claims of one software component, each by its name and type.
#[derive(Debug)]
pub struct PlatSwComponent {
    pub ty: String,
    pub hash_algo: String,
    pub value: Vec<u8>,
    pub version: Option<String>,
    pub signer_id: Vec<u8>,
}

/// The typed claims of a software component as mathematics.
pub struct PlatSwComponentView {
    pub ty: Seq<char>,
    pub hash_algo: Seq<char>,
    pub value: Seq<u8>,
    pub version: Option<Seq<char>>,
    pub signer_id: Seq<u8>,
}

impl View for PlatSwComponent {
    type V = PlatSwComponentView;

    open spec fn view(&self) -> PlatSwComponentView {
        PlatSwComponentView {
            ty: self.ty@,
            hash_algo: self.hash_algo@,
            value: self.value@,
            version: optional_text(self.version),
            signer_id: self.signer_id@,
        }
    }
}

impl PlatSwComponentView {
    /// Why a software component's claims have no typed view: the first failure in the order
    /// type, hash algorithm, measurement value, version, signer id. A claim fails where it is
    /// missing or of the wrong kind; the hash algorithm and the version, which are optional, fail
    /// only where they were written with something else than text.
    pub open spec fn fault(claims: Map<u32, ClaimView>) -> Option<Fault> {
        or_fault(
            fault_of(text_claim(claims, CCA_SW_COMP_TITLE)),
            or_fault(
                fault_of(optional_text_claim(claims, CCA_SW_COMP_HASH_ALGORITHM)),
                or_fault(
                    fault_of(bstr_claim(claims, CCA_SW_COMP_MEASUREMENT_VALUE)),
                    or_fault(
                        fault_of(optional_text_claim(claims, CCA_SW_COMP_VERSION)),
                        fault_of(bstr_claim(claims, CCA_SW_COMP_SIGNER_ID)),
                    ),
                ),
            ),
        )
    }

    /// The typed view of a software component's claims of which none fails. The hash algorithm
    /// is the component's own where its claim was written, else the platform's; the version is
    /// there where its claim was written.
    pub open spec fn of(claims: Map<u32, ClaimView>, plat_hash_algo: Seq<char>)
        -> PlatSwComponentView {
        PlatSwComponentView {
            ty: text_claim(claims, CCA_SW_COMP_TITLE)->Ok_0,
            hash_algo: match optional_text_claim(claims, CCA_SW_COMP_HASH_ALGORITHM)->Ok_0 {
                Some(algo) => algo,
                None => plat_hash_algo,
            },
            value: bstr_claim(claims, CCA_SW_COMP_MEASUREMENT_VALUE)->Ok_0,
            version: optional_text_claim(claims, CCA_SW_COMP_VERSION)->Ok_0,
            signer_id: bstr_claim(claims, CCA_SW_COMP_SIGNER_ID)->Ok_0,
        }
    }
}

impl PlatSwComponent {
    /// Reads the typed claims out of a software component's map of claims.
    ///
    /// Type, measurement value and signer id are required. The hash algorithm is the component's
    /// own where its claim was written, else the platform's. The version is `None` where its
    /// claim was not written. Either of the two, written with something else than text, is a
    /// mismatch.
    pub fn from_raw_claims(claims: &ClaimsMap, plat_hash_algo: &String) -> (res: Result<
        Self,
        TokenError,
    >)
        ensures
            match res {
                Ok(typed) => PlatSwComponentView::fault(claims_view(*claims)) is None && typed@
                    == PlatSwComponentView::of(claims_view(*claims), plat_hash_algo@),
                Err(e) => PlatSwComponentView::fault(claims_view(*claims)) == Some(e@),
            },
    {
        let ty = match get_text_claim(CCA_SW_COMP_TITLE, claims) {
            Ok(v) => v,
            Err(e) => { return Err(e); },
        };
        let hash_algo = match get_optional_text_claim(CCA_SW_COMP_HASH_ALGORITHM, claims) {
            Ok(Some(v)) => v,
            Ok(None) => plat_hash_algo.clone(),
            Err(e) => { return Err(e); },
        };
        let value = match get_bstr_claim(CCA_SW_COMP_MEASUREMENT_VALUE, claims) {
            Ok(v) => v,
            Err(e) => { return Err(e); },
        };
        let version = match get_optional_text_claim(CCA_SW_COMP_VERSION, claims) {
            Ok(v) => v,
            Err(e) => { return Err(e); },
        };
        let signer_id = match get_bstr_claim(CCA_SW_COMP_SIGNER_ID, claims) {
            Ok(v) => v,
            Err(e) => { return Err(e); },
        };
        Ok(Self { ty, hash_algo, value, version, signer_id })
    }
}

/// The claims of a realm token, each by its name and type.
#[derive(Debug)]
pub struct RealmClaims {
    pub challenge: Vec<u8>,
    pub profile: Option<String>,
    pub personalization_value: Vec<u8>,
    pub hash_algo: String,
    pub pub_key_hash_algo: String,
    pub pub_key: Vec<u8>,
    pub rim: Vec<u8>,
    pub rems: [Vec<u8>; 4],
}

/// The typed claims of a realm token as mathematics.
pub struct RealmClaimsView {
    pub challenge: Seq<u8>,
    pub profile: Option<Seq<char>>,
    pub personalization_value: Seq<u8>,
    pub hash_algo: Seq<char>,
    pub pub_key_hash_algo: Seq<char>,
    pub pub_key: Seq<u8>,
    pub rim: Seq<u8>,
    pub rems: Seq<Seq<u8>>,
}

impl View for RealmClaims {
    type V = RealmClaimsView;

    open spec fn view(&self) -> RealmClaimsView {
        RealmClaimsView {
            challenge: self.challenge@,
            profile: optional_text(self.profile),
            personalization_value: self.personalization_value@,
            hash_algo: self.hash_algo@,
            pub_key_hash_algo: self.pub_key_hash_algo@,
            pub_key: self.pub_key@,
            rim: self.rim@,
            rems: Seq::new(4, |i: int| self.rems@[i]@),
        }
    }
}

impl RealmClaimsView {
    /// Why a realm token's claims have no typed view: the first failure in the order of the four
    /// measurements, by ordinal, then challenge, profile, personalization value, hash algorithm,
    /// public key hash algorithm, public key, initial measurement. A claim fails where it is
    /// missing or of the wrong kind; the profile, which is optional, fails only where it was
    /// written with something else than text.
    pub open spec fn fault(claims: Map<u32, ClaimView>, measurements: Map<u32, ClaimView>)
        -> Option<Fault> {
        or_fault(
            Self::measurements_fault(measurements),
            or_fault(
                fault_of(bstr_claim(claims, CCA_REALM_CHALLENGE)),
                or_fault(
                    fault_of(optional_text_claim(claims, CCA_REALM_PROFILE)),
                    or_fault(
                        fault_of(bstr_claim(claims, CCA_REALM_PERSONALIZATION_VALUE)),
                        or_fault(
                            fault_of(text_claim(claims, CCA_REALM_HASH_ALGO_ID)),
                            or_fault(
                                fault_of(text_claim(claims, CCA_REALM_PUB_KEY_HASH_ALGO_ID)),
                                or_fault(
                                    fault_of(bstr_claim(claims, CCA_REALM_PUB_KEY)),
                                    fault_of(bstr_claim(claims, CCA_REALM_INITIAL_MEASUREMENT)),
                                ),
                            ),
                        ),
                    ),
                ),
            ),
        )
    }

    /// Why the four measurements have no typed view: the first of them, by ordinal, that is
    /// missing or holds no bytes.
    pub open spec fn measurements_fault(measurements: Map<u32, ClaimView>) -> Option<Fault> {
        or_fault(
            fault_of(bstr_claim(measurements, 0)),
            or_fault(
                fault_of(bstr_claim(measurements, 1)),
                or_fault(
                    fault_of(bstr_claim(measurements, 2)),
                    fault_of(bstr_claim(measurements, 3)),
                ),
            ),
        )
    }

    /// The typed view of a realm token's claims of which none fails; the profile is there where
    /// its claim was written.
    pub open spec fn of(claims: Map<u32, ClaimView>, measurements: Map<u32, ClaimView>)
        -> RealmClaimsView {
        RealmClaimsView {
            challenge: bstr_claim(claims, CCA_REALM_CHALLENGE)->Ok_0,
            profile: optional_text_claim(claims, CCA_REALM_PROFILE)->Ok_0,
            personalization_value: bstr_claim(claims, CCA_REALM_PERSONALIZATION_VALUE)->Ok_0,
            hash_algo: text_claim(claims, CCA_REALM_HASH_ALGO_ID)->Ok_0,
            pub_key_hash_algo: text_claim(claims, CCA_REALM_PUB_KEY_HASH_ALGO_ID)->Ok_0,
            pub_key: bstr_claim(claims, CCA_REALM_PUB_KEY)->Ok_0,
            rim: bstr_claim(claims, CCA_REALM_INITIAL_MEASUREMENT)->Ok_0,
            rems: Seq::new(4, |i: int| bstr_claim(measurements, i as u32)->Ok_0),
        }
    }
}

impl RealmClaims {
    /// Reads the typed claims out of a realm token's two maps of claims.
    ///
    /// Every claim but the profile is required, the four measurements included. The profile is
    /// `None` where its claim was not written; written with something else than text, it is a
    /// mismatch like any other claim of the wrong kind.
    pub fn from_raw_claims(claims: &ClaimsMap, measurement_claims: &ClaimsMap) -> (res: Result<
        Self,
        TokenError,
    >)
        ensures
            match res {
                Ok(typed) => RealmClaimsView::fault(
                    claims_view(*claims),
                    claims_view(*measurement_claims),
                ) is None && typed@ == RealmClaimsView::of(
                    claims_view(*claims),
                    claims_view(*measurement_claims),
                ),
                Err(e) => RealmClaimsView::fault(
                    claims_view(*claims),
                    claims_view(*measurement_claims),
                ) == Some(e@),
            },
    {
        let rem0 = match get_bstr_claim(0, measurement_claims) {
            Ok(v) => v,
            Err(e) => { return Err(e); },
        };
        let rem1 = match get_bstr_claim(1, measurement_claims) {
            Ok(v) => v,
            Err(e) => { return Err(e); },
        };
        let rem2 = match get_bstr_claim(2, measurement_claims) {
            Ok(v) => v,
            Err(e) => { return Err(e); },
        };
        let rem3 = match get_bstr_claim(3, measurement_claims) {
            Ok(v) => v,
            Err(e) => { return Err(e); },
        };
        let challenge = match get_bstr_claim(CCA_REALM_CHALLENGE, claims) {
            Ok(v) => v,
            Err(e) => { return Err(e); },
        };
        let profile = match get_optional_text_claim(CCA_REALM_PROFILE, claims) {
            Ok(v) => v,
            Err(e) => { return Err(e); },
        };
        let personalization_value = match get_bstr_claim(CCA_REALM_PERSONALIZATION_VALUE, claims) {
            Ok(v) => v,
            Err(e) => { return Err(e); },
        };
        let hash_algo = match get_text_claim(CCA_REALM_HASH_ALGO_ID, claims) {
            Ok(v) => v,
            Err(e) => { return Err(e); },
        };
        let pub_key_hash_algo = match get_text_claim(CCA_REALM_PUB_KEY_HASH_ALGO_ID, claims) {
            Ok(v) => v,
            Err(e) => { return Err(e); },
        };
        let pub_key = match get_bstr_claim(CCA_REALM_PUB_KEY, claims) {
            Ok(v) => v,
            Err(e) => { return Err(e); },
        };
        let rim = match get_bstr_claim(CCA_REALM_INITIAL_MEASUREMENT, claims) {
            Ok(v) => v,
            Err(e) => { return Err(e); },
        };
        let typed = Self {
            challenge,
            profile,
            personalization_value,
            hash_algo,
            pub_key_hash_algo,
            pub_key,
            rim,
            rems: [rem0, rem1, rem2, rem3],
        };
        assert(typed@.rems =~= RealmClaimsView::of(
            claims_view(*claims),
            claims_view(*measurement_claims),
        ).rems);
        Ok(typed)
    }
}

/// A platform token that lacks nothing has a typed view; its verification service is `None`
/// exactly where that claim was not written.
pub proof fn lemma_complete_platform_has_typed_view(token: PlatformTokenView)
    requires
        token.complete(),
    ensures
        PlatClaimsView::fault(token.token_claims) is None,
        token.token_claims[CCA_PLAT_VERIFICATION_SERVICE].present <==> PlatClaimsView::of(
            token.token_claims,
        ).verification_service is Some,
{
    let schema = platform_schema();
    let claims = token.token_claims;
    assert(schema.contains_key(CCA_PLAT_VERIFICATION_SERVICE) && claims.contains_key(
        CCA_PLAT_VERIFICATION_SERVICE,
    ));
    assert(schema.contains_key(CCA_PLAT_CHALLENGE) && claims.contains_key(CCA_PLAT_CHALLENGE));
    assert(schema.contains_key(CCA_PLAT_PROFILE) && claims.contains_key(CCA_PLAT_PROFILE));
    assert(schema.contains_key(CCA_PLAT_INSTANCE_ID) && claims.contains_key(CCA_PLAT_INSTANCE_ID));
    assert(schema.contains_key(CCA_PLAT_IMPLEMENTATION_ID) && claims.contains_key(
        CCA_PLAT_IMPLEMENTATION_ID,
    ));
    assert(schema.contains_key(CCA_PLAT_SECURITY_LIFECYCLE) && claims.contains_key(
        CCA_PLAT_SECURITY_LIFECYCLE,
    ));
    assert(schema.contains_key(CCA_PLAT_CONFIGURATION) && claims.contains_key(
        CCA_PLAT_CONFIGURATION,
    ));
    assert(schema.contains_key(CCA_PLAT_HASH_ALGO_ID) && claims.contains_key(
        CCA_PLAT_HASH_ALGO_ID,
    ));
}

/// A realm token that lacks nothing has a typed view; its profile is `None` exactly where that
/// claim was not written.
pub proof fn lemma_complete_realm_has_typed_view(token: RealmTokenView)
    requires
        token.complete(),
    ensures
        RealmClaimsView::fault(token.token_claims, token.measurement_claims) is None,
        token.token_claims[CCA_REALM_PROFILE].present <==> RealmClaimsView::of(
            token.token_claims,
            token.measurement_claims,
        ).profile is Some,
{
    let schema = realm_schema();
    let claims = token.token_claims;
    assert(schema.contains_key(CCA_REALM_PROFILE) && claims.contains_key(CCA_REALM_PROFILE));
    let measurements = token.measurement_claims;
    assert(schema.contains_key(CCA_REALM_CHALLENGE) && claims.contains_key(CCA_REALM_CHALLENGE));
    assert(schema.contains_key(CCA_REALM_PERSONALIZATION_VALUE) && claims.contains_key(
        CCA_REALM_PERSONALIZATION_VALUE,
    ));
    assert(schema.contains_key(CCA_REALM_HASH_ALGO_ID) && claims.contains_key(
        CCA_REALM_HASH_ALGO_ID,
    ));
    assert(schema.contains_key(CCA_REALM_PUB_KEY_HASH_ALGO_ID) && claims.contains_key(
        CCA_REALM_PUB_KEY_HASH_ALGO_ID,
    ));
    assert(schema.contains_key(CCA_REALM_PUB_KEY) && claims.contains_key(CCA_REALM_PUB_KEY));
    assert(schema.contains_key(CCA_REALM_INITIAL_MEASUREMENT) && claims.contains_key(
        CCA_REALM_INITIAL_MEASUREMENT,
    ));
    assert(measurement_schema().contains_key(0u32) && measurements.contains_key(0u32));
    assert(measurement_schema().contains_key(1u32) && measurements.contains_key(1u32));
    assert(measurement_schema().contains_key(2u32) && measurements.contains_key(2u32));
    assert(measurement_schema().contains_key(3u32) && measurements.contains_key(3u32));
}

/// A software component whose mandatory claims were all written has a typed view. Its version
/// is `None` exactly where that claim was not written, and its hash algorithm is the platform's
/// exactly where the component's own was not written.
pub proof fn lemma_complete_component_has_typed_view(
    claims: Map<u32, ClaimView>,
    plat_hash_algo: Seq<char>,
)
    requires
        same_shape(claims, sw_component_schema()),
        all_present(claims),
    ensures
        PlatSwComponentView::fault(claims) is None,
        claims[CCA_SW_COMP_VERSION].present <==> PlatSwComponentView::of(
            claims,
            plat_hash_algo,
        ).version is Some,
        !claims[CCA_SW_COMP_HASH_ALGORITHM].present ==> PlatSwComponentView::of(
            claims,
            plat_hash_algo,
        ).hash_algo == plat_hash_algo,
        claims[CCA_SW_COMP_HASH_ALGORITHM].present ==> ClaimValue::Text(
            PlatSwComponentView::of(claims, plat_hash_algo).hash_algo,
        ) == claims[CCA_SW_COMP_HASH_ALGORITHM].data,
{
    let schema = sw_component_schema();
    assert(schema.contains_key(CCA_SW_COMP_TITLE) && claims.contains_key(CCA_SW_COMP_TITLE));
    assert(schema.contains_key(CCA_SW_COMP_HASH_ALGORITHM) && claims.contains_key(
        CCA_SW_COMP_HASH_ALGORITHM,
    ));
    assert(schema.contains_key(CCA_SW_COMP_MEASUREMENT_VALUE) && claims.contains_key(
        CCA_SW_COMP_MEASUREMENT_VALUE,
    ));
    assert(schema.contains_key(CCA_SW_COMP_VERSION) && claims.contains_key(CCA_SW_COMP_VERSION));
    assert(schema.contains_key(CCA_SW_COMP_SIGNER_ID) && claims.contains_key(
        CCA_SW_COMP_SIGNER_ID,
    ));
}

/// An optional claim that was written with something else than text has no typed value: it is
/// a mismatch, not an absent claim.
pub proof fn lemma_optional_claim_of_wrong_kind_is_a_mismatch(
    claims: Map<u32, ClaimView>,
    key: u32,
)
    requires
        claims.contains_key(key),
        claims[key].present,
        !(claims[key].data is Text),
    ensures
        optional_text_claim(claims, key) == Err::<Option<Seq<char>>, Fault>(
            Fault::ClaimDataMisMatchType,
        ),
{
}

/// An optional claim that was not written is `None`, and no failure.
pub proof fn lemma_optional_claim_unwritten_is_none(claims: Map<u32, ClaimView>, key: u32)
    requires
        !claims.contains_key(key) || !claims[key].present,
    ensures
        optional_text_claim(claims, key) == Ok::<Option<Seq<char>>, Fault>(None),
{
}

/// A realm token's claims whose profile was written with something else than text have no
/// typed view: they are a mismatch, where the measurements and the challenge are in order.
pub proof fn lemma_realm_profile_of_wrong_kind_is_a_mismatch(
    claims: Map<u32, ClaimView>,
    measurements: Map<u32, ClaimView>,
)
    requires
        RealmClaimsView::measurements_fault(measurements) is None,
        bstr_claim(claims, CCA_REALM_CHALLENGE) is Ok,
        claims.contains_key(CCA_REALM_PROFILE),
        claims[CCA_REALM_PROFILE].present,
        !(claims[CCA_REALM_PROFILE].data is Text),
    ensures
        RealmClaimsView::fault(claims, measurements) == Some(Fault::ClaimDataMisMatchType),
{
}

/// A platform token's claims whose verification service was written with something else than
/// text have no typed view: they are a mismatch, where the challenge is in order.
pub proof fn lemma_verification_service_of_wrong_kind_is_a_mismatch(claims: Map<u32, ClaimView>)
    requires
        bstr_claim(claims, CCA_PLAT_CHALLENGE) is Ok,
        claims.contains_key(CCA_PLAT_VERIFICATION_SERVICE),
        claims[CCA_PLAT_VERIFICATION_SERVICE].present,
        !(claims[CCA_PLAT_VERIFICATION_SERVICE].data is Text),
    ensures
        PlatClaimsView::fault(claims) == Some(Fault::ClaimDataMisMatchType),
{
}

/// A software component's claims whose hash algorithm was written with something else than
/// text have no typed view: they are a mismatch, where the type is in order. The platform's
/// hash algorithm stands in for one that was not written only.
pub proof fn lemma_component_hash_algorithm_of_wrong_kind_is_a_mismatch(
    claims: Map<u32, ClaimView>,
)
    requires
        text_claim(claims, CCA_SW_COMP_TITLE) is Ok,
        claims.contains_key(CCA_SW_COMP_HASH_ALGORITHM),
        claims[CCA_SW_COMP_HASH_ALGORITHM].present,
        !(claims[CCA_SW_COMP_HASH_ALGORITHM].data is Text),
    ensures
        PlatSwComponentView::fault(claims) == Some(Fault::ClaimDataMisMatchType),
{
}

/// A software component's claims whose version was not written have a typed view, without a
/// version, where the other claims are in order.
pub proof fn lemma_component_without_version_has_typed_view(
    claims: Map<u32, ClaimView>,
    plat_hash_algo: Seq<char>,
)
    requires
        text_claim(claims, CCA_SW_COMP_TITLE) is Ok,
        optional_text_claim(claims, CCA_SW_COMP_HASH_ALGORITHM) is Ok,
        bstr_claim(claims, CCA_SW_COMP_MEASUREMENT_VALUE) is Ok,
        bstr_claim(claims, CCA_SW_COMP_SIGNER_ID) is Ok,
        !claims.contains_key(CCA_SW_COMP_VERSION) || !claims[CCA_SW_COMP_VERSION].present,
    ensures
        PlatSwComponentView::fault(claims) is None,
        PlatSwComponentView::of(claims, plat_hash_algo).version is None,
{
}

} // verus!
