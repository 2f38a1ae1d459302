//! The attestation token: its claims, its encoding and its verification.

pub mod cbor;
pub mod crypto;
pub mod envelope;
pub mod error;
pub mod extractor;
pub mod laws;
pub mod parser;
pub mod verification;

use std::collections::HashMap;
use vstd::prelude::*;
use vstd::std_specs::convert::TryFromSpecImpl;
use crate::token::error::TokenError;

verus! {

broadcast use vstd::std_specs::hash::group_hash_axioms;

/// The tag of a single-signer signed object.
pub const TAG_COSE_SIGN1: u64 = 18;

/// The tag of an attestation token.
pub const TAG_CCA_TOKEN: u64 = 399;

/// The key of the platform token in the attestation token's map.
pub const CCA_PLAT_TOKEN: u32 = 44234;

/// The key of the realm delegated token in the attestation token's map.
pub const CCA_REALM_DELEGATED_TOKEN: u32 = 44241;

// The labels of the platform token's claims.

pub const CCA_PLAT_CHALLENGE: u32 = 10;

pub const CCA_PLAT_INSTANCE_ID: u32 = 256;

pub const CCA_PLAT_PROFILE: u32 = 265;

pub const CCA_PLAT_SECURITY_LIFECYCLE: u32 = 2395;

pub const CCA_PLAT_IMPLEMENTATION_ID: u32 = 2396;

pub const CCA_PLAT_SW_COMPONENTS: u32 = 2399;

pub const CCA_PLAT_VERIFICATION_SERVICE: u32 = 2400;

pub const CCA_PLAT_CONFIGURATION: u32 = 2401;

pub const CCA_PLAT_HASH_ALGO_ID: u32 = 2402;

// The labels of the realm token's claims.

pub const CCA_REALM_CHALLENGE: u32 = 10;

pub const CCA_REALM_PROFILE: u32 = 265;

pub const CCA_REALM_PERSONALIZATION_VALUE: u32 = 44235;

pub const CCA_REALM_HASH_ALGO_ID: u32 = 44236;

pub const CCA_REALM_PUB_KEY: u32 = 44237;

pub const CCA_REALM_INITIAL_MEASUREMENT: u32 = 44238;

pub const CCA_REALM_EXTENSIBLE_MEASUREMENTS: u32 = 44239;

pub const CCA_REALM_PUB_KEY_HASH_ALGO_ID: u32 = 44240;

// The labels of a software component's claims.

pub const CCA_SW_COMP_TITLE: u32 = 1;

pub const CCA_SW_COMP_MEASUREMENT_VALUE: u32 = 2;

pub const CCA_SW_COMP_VERSION: u32 = 4;

pub const CCA_SW_COMP_SIGNER_ID: u32 = 5;

pub const CCA_SW_COMP_HASH_ALGORITHM: u32 = 6;

// How many slots each map of claims has.

pub const CLAIM_COUNT_REALM_TOKEN: usize = 7;

pub const CLAIM_COUNT_PLATFORM_TOKEN: usize = 8;

pub const CLAIM_COUNT_REALM_EXTENSIBLE_MEASUREMENTS: usize = 4;

pub const CLAIM_COUNT_SW_COMPONENT: usize = 5;

/// How many software components a platform token can hold.
pub const MAX_SW_COMPONENT_COUNT: usize = 32;

/// The profile of a realm token of version 1.0.
pub const CCA_REALM_PROFILE_VALUE_1_0: &'static str = "tag:arm.com,2023:realm#1.0.0";

/// The profile of a platform token of version 1.0.
pub const CCA_PLAT_PROFILE_VALUE_1_0: &'static str = "tag:arm.com,2023:cca_platform#1.0.0";

/// The value of a claim: one of four kinds, fixed when the claim's slot is made.
#[derive(Debug)]
pub enum ClaimData {
    Bool(bool),
    Int64(i64),
    Bstr(Vec<u8>),
    Text(String),
}

/// A claim's value as mathematics.
pub enum ClaimValue {
    Bool(bool),
    Int64(i64),
    Bstr(Seq<u8>),
    Text(Seq<char>),
}

impl ClaimValue {
    /// Whether `self` and `other` are of the same kind.
    pub open spec fn same_kind(self, other: ClaimValue) -> bool {
        match self {
            ClaimValue::Bool(_) => other is Bool,
            ClaimValue::Int64(_) => other is Int64,
            ClaimValue::Bstr(_) => other is Bstr,
            ClaimValue::Text(_) => other is Text,
        }
    }
}

impl View for ClaimData {
    type V = ClaimValue;

    open spec fn view(&self) -> ClaimValue {
        match *self {
            ClaimData::Bool(b) => ClaimValue::Bool(b),
            ClaimData::Int64(i) => ClaimValue::Int64(i),
            ClaimData::Bstr(d) => ClaimValue::Bstr(d@),
            ClaimData::Text(s) => ClaimValue::Text(s@),
        }
    }
}

impl ClaimData {
    /// The empty boolean value: `false`.
    pub fn new_bool() -> (res: Self)
        ensures
            res@ == ClaimValue::Bool(false),
    {
        ClaimData::Bool(false)
    }

    /// The empty integer value: zero.
    pub fn new_int64() -> (res: Self)
        ensures
            res@ == ClaimValue::Int64(0),
    {
        ClaimData::Int64(0)
    }

    /// The empty byte string.
    pub fn new_bstr() -> (res: Self)
        ensures
            res@ == ClaimValue::Bstr(Seq::empty()),
    {
        ClaimData::Bstr(Vec::new())
    }

    /// The empty text.
    pub fn new_text() -> (res: Self)
        ensures
            res@ == ClaimValue::Text(Seq::empty()),
    {
        ClaimData::Text(String::new())
    }

    /// The boolean that a boolean value holds.
    pub fn get_bool(&self) -> (res: bool)
        requires
            self@ is Bool,
        ensures
            self@ == ClaimValue::Bool(res),
    {
        match self {
            ClaimData::Bool(b) => *b,
            _ => false,
        }
    }

    /// The integer that an integer value holds.
    pub fn get_int64(&self) -> (res: i64)
        requires
            self@ is Int64,
        ensures
            self@ == ClaimValue::Int64(res),
    {
        match self {
            ClaimData::Int64(i) => *i,
            _ => 0,
        }
    }

    /// The bytes that a byte string value holds.
    pub fn get_bstr(&self) -> (res: &[u8])
        requires
            self@ is Bstr,
        ensures
            self@ == ClaimValue::Bstr(res@),
    {
        match self {
            ClaimData::Bstr(d) => d.as_slice(),
            _ => &[],
        }
    }

    /// The text that a text value holds.
    pub fn get_text(&self) -> (res: &str)
        requires
            self@ is Text,
        ensures
            self@ == ClaimValue::Text(res@),
    {
        match self {
            ClaimData::Text(s) => s.as_str(),
            _ => "",
        }
    }
}

impl Clone for ClaimData {
    fn clone(&self) -> (res: Self)
        ensures
            res@ == self@,
    {
        match self {
            ClaimData::Bool(b) => ClaimData::Bool(*b),
            ClaimData::Int64(i) => ClaimData::Int64(*i),
            ClaimData::Bstr(d) => ClaimData::Bstr(d.clone()),
            ClaimData::Text(s) => ClaimData::Text(s.clone()),
        }
    }
}

impl Default for ClaimData {
    fn default() -> (res: Self)
        ensures
            res@ == ClaimValue::Bool(false),
    {
        ClaimData::Bool(false)
    }
}

impl TryFrom<ClaimData> for String {
    type Error = TokenError;

    fn try_from(value: ClaimData) -> (res: Result<Self, Self::Error>) {
        match value {
            ClaimData::Text(v) => Ok(v),
            _ => Err(TokenError::ClaimDataMisMatchType),
        }
    }
}

impl TryFromSpecImpl<ClaimData> for String {
    open spec fn obeys_try_from_spec() -> bool {
        true
    }

    open spec fn try_from_spec(value: ClaimData) -> Result<Self, Self::Error> {
        match value {
            ClaimData::Text(v) => Ok(v),
            _ => Err(TokenError::ClaimDataMisMatchType),
        }
    }
}

impl TryFrom<ClaimData> for Vec<u8> {
    type Error = TokenError;

    fn try_from(value: ClaimData) -> (res: Result<Self, Self::Error>) {
        match value {
            ClaimData::Bstr(v) => Ok(v),
            _ => Err(TokenError::ClaimDataMisMatchType),
        }
    }
}

impl TryFromSpecImpl<ClaimData> for Vec<u8> {
    open spec fn obeys_try_from_spec() -> bool {
        true
    }

    open spec fn try_from_spec(value: ClaimData) -> Result<Self, Self::Error> {
        match value {
            ClaimData::Bstr(v) => Ok(v),
            _ => Err(TokenError::ClaimDataMisMatchType),
        }
    }
}

impl TryFrom<ClaimData> for i64 {
    type Error = TokenError;

    fn try_from(value: ClaimData) -> (res: Result<Self, Self::Error>) {
        match value {
            ClaimData::Int64(v) => Ok(v),
            _ => Err(TokenError::ClaimDataMisMatchType),
        }
    }
}

impl TryFromSpecImpl<ClaimData> for i64 {
    open spec fn obeys_try_from_spec() -> bool {
        true
    }

    open spec fn try_from_spec(value: ClaimData) -> Result<Self, Self::Error> {
        match value {
            ClaimData::Int64(v) => Ok(v),
            _ => Err(TokenError::ClaimDataMisMatchType),
        }
    }
}

impl TryFrom<ClaimData> for bool {
    type Error = TokenError;

    fn try_from(value: ClaimData) -> (res: Result<Self, Self::Error>) {
        match value {
            ClaimData::Bool(v) => Ok(v),
            _ => Err(TokenError::ClaimDataMisMatchType),
        }
    }
}

impl TryFromSpecImpl<ClaimData> for bool {
    open spec fn obeys_try_from_spec() -> bool {
        true
    }

    open spec fn try_from_spec(value: ClaimData) -> Result<Self, Self::Error> {
        match value {
            ClaimData::Bool(v) => Ok(v),
            _ => Err(TokenError::ClaimDataMisMatchType),
        }
    }
}

/// A slot for one claim: whether the claim is mandatory, its title for
/// diagnostics, whether a value was written, and the value.
#[derive(Debug)]
pub struct Claim {
    pub mandatory: bool,
    pub title: String,
    pub present: bool,
    pub data: ClaimData,
}

/// A claim's slot as mathematics.
pub struct ClaimView {
    pub mandatory: bool,
    pub title: Seq<char>,
    pub present: bool,
    pub data: ClaimValue,
}

impl View for Claim {
    type V = ClaimView;

    open spec fn view(&self) -> ClaimView {
        ClaimView {
            mandatory: self.mandatory,
            title: self.title@,
            present: self.present,
            data: self.data@,
        }
    }
}

/// An empty slot.
pub open spec fn slot(mandatory: bool, data: ClaimValue, title: Seq<char>) -> ClaimView {
    ClaimView { mandatory, title, present: false, data }
}

impl Claim {
    /// An empty slot for a claim of the kind of `data`.
    pub fn new(mandatory: bool, data: ClaimData, title: &str) -> (res: Self)
        ensures
            res@ == slot(mandatory, data@, title@),
    {
        Self { mandatory, data, title: title.to_owned(), present: false }
    }
}

/// The claims of one map, by label.
pub type ClaimsMap = HashMap<u32, Claim>;

/// The claims of a map as mathematics: each label's slot by its view.
pub open spec fn claims_view(claims: ClaimsMap) -> Map<u32, ClaimView> {
    Map::new(|label: u32| claims@.contains_key(label), |label: u32| claims@[label]@)
}

/// Writing a slot into a map of claims writes its view into the map's view.
pub proof fn lemma_claims_view_insert(before: ClaimsMap, after: ClaimsMap, label: u32, claim: Claim)
    requires
        after@ == before@.insert(label, claim),
    ensures
        claims_view(after) == claims_view(before).insert(label, claim@),
{
    assert(claims_view(after) =~= claims_view(before).insert(label, claim@));
}

/// Whether `claims` has the slots of `schema`: the same labels, and under each label a slot
/// that is mandatory as the schema's, has its title, and holds a value of its kind.
pub open spec fn same_shape(claims: Map<u32, ClaimView>, schema: Map<u32, ClaimView>) -> bool {
    &&& forall|label: u32| claims.contains_key(label) <==> schema.contains_key(label)
    &&& forall|label: u32| #[trigger]
        schema.contains_key(label) ==> {
            &&& claims[label].mandatory == schema[label].mandatory
            &&& claims[label].title == schema[label].title
            &&& claims[label].data.same_kind(schema[label].data)
        }
}

/// Whether every mandatory claim of `claims` was written.
pub open spec fn all_present(claims: Map<u32, ClaimView>) -> bool {
    forall|label: u32| #[trigger]
        claims.contains_key(label) ==> (claims[label].mandatory ==> claims[label].present)
}

/// Whether exactly the first `count` slots are in use.
pub open spec fn in_use(components: Seq<SwComponentView>, count: int) -> bool {
    &&& 0 <= count <= components.len()
    &&& forall|i: int|
        0 <= i < components.len() ==> ((#[trigger] components[i]).present <==> i < count)
}

/// A single-signer signed object: the protected header as it was encoded, the
/// algorithm that the header names, the payload and the signature.
#[derive(Debug)]
pub struct SignedObject {
    /// The bytes of the protected header, exactly as the signer encoded them.
    pub protected: Vec<u8>,
    /// The registry value of the signature algorithm, where the protected
    /// header names one by number.
    pub algorithm: Option<i64>,
    /// The signed payload, exactly as the signer encoded it.
    pub payload: Vec<u8>,
    pub signature: Vec<u8>,
}

/// A signed object as mathematics.
pub struct SignedObjectView {
    pub protected: Seq<u8>,
    pub algorithm: Option<i64>,
    pub payload: Seq<u8>,
    pub signature: Seq<u8>,
}

impl View for SignedObject {
    type V = SignedObjectView;

    open spec fn view(&self) -> SignedObjectView {
        SignedObjectView {
            protected: self.protected@,
            algorithm: self.algorithm,
            payload: self.payload@,
            signature: self.signature@,
        }
    }
}

impl SignedObjectView {
    /// The signed object with nothing in it.
    pub open spec fn empty() -> SignedObjectView {
        SignedObjectView {
            protected: Seq::empty(),
            algorithm: None,
            payload: Seq::empty(),
            signature: Seq::empty(),
        }
    }
}

impl SignedObject {
    /// The signed object with nothing in it.
    pub fn new() -> (res: Self)
        ensures
            res@ == SignedObjectView::empty(),
    {
        Self { protected: Vec::new(), algorithm: None, payload: Vec::new(), signature: Vec::new() }
    }
}

/// One software component of the platform: whether the slot is in use, and
/// the component's claims.
#[derive(Debug)]
pub struct SwComponent {
    pub present: bool,
    pub claims: ClaimsMap,
}

/// A software component as mathematics.
pub struct SwComponentView {
    pub present: bool,
    pub claims: Map<u32, ClaimView>,
}

impl View for SwComponent {
    type V = SwComponentView;

    open spec fn view(&self) -> SwComponentView {
        SwComponentView { present: self.present, claims: claims_view(self.claims) }
    }
}

/// The empty slots of a software component's claims.
pub open spec fn sw_component_schema() -> Map<u32, ClaimView> {
    Map::empty()
        .insert(CCA_SW_COMP_TITLE, slot(true, ClaimValue::Text(Seq::empty()), "SW Type"@))
        .insert(
            CCA_SW_COMP_HASH_ALGORITHM,
            slot(false, ClaimValue::Text(Seq::empty()), "Hash algorithm"@),
        )
        .insert(
            CCA_SW_COMP_MEASUREMENT_VALUE,
            slot(true, ClaimValue::Bstr(Seq::empty()), "Measurement value"@),
        )
        .insert(CCA_SW_COMP_VERSION, slot(false, ClaimValue::Text(Seq::empty()), "Version"@))
        .insert(CCA_SW_COMP_SIGNER_ID, slot(true, ClaimValue::Bstr(Seq::empty()), "Signer ID"@))
}

impl SwComponentView {
    /// The unused slot.
    pub open spec fn empty() -> SwComponentView {
        SwComponentView { present: false, claims: sw_component_schema() }
    }
}

impl SwComponent {
    /// An unused slot that holds the five empty claims of a software component.
    pub fn new() -> (res: Self)
        ensures
            res@ == SwComponentView::empty(),
            res.claims@.len() == CLAIM_COUNT_SW_COMPONENT,
    {
        let mut claims: ClaimsMap = HashMap::new();
        claims.insert(CCA_SW_COMP_TITLE, Claim::new(true, ClaimData::new_text(), "SW Type"));
        claims.insert(
            CCA_SW_COMP_HASH_ALGORITHM,
            Claim::new(false, ClaimData::new_text(), "Hash algorithm"),
        );
        claims.insert(
            CCA_SW_COMP_MEASUREMENT_VALUE,
            Claim::new(true, ClaimData::new_bstr(), "Measurement value"),
        );
        claims.insert(CCA_SW_COMP_VERSION, Claim::new(false, ClaimData::new_text(), "Version"));
        claims.insert(CCA_SW_COMP_SIGNER_ID, Claim::new(true, ClaimData::new_bstr(), "Signer ID"));
        assert(claims_view(claims) =~= sw_component_schema());
        Self { present: false, claims }
    }
}

/// The realm delegated token: its signed object, its claims, and the four
/// extensible measurements by ordinal.
#[derive(Debug)]
pub struct RealmToken {
    pub cose_sign1: SignedObject,
    pub token_claims: ClaimsMap,
    pub measurement_claims: ClaimsMap,
}

/// A realm token as mathematics.
pub struct RealmTokenView {
    pub cose_sign1: SignedObjectView,
    pub token_claims: Map<u32, ClaimView>,
    pub measurement_claims: Map<u32, ClaimView>,
}

impl View for RealmToken {
    type V = RealmTokenView;

    open spec fn view(&self) -> RealmTokenView {
        RealmTokenView {
            cose_sign1: self.cose_sign1@,
            token_claims: claims_view(self.token_claims),
            measurement_claims: claims_view(self.measurement_claims),
        }
    }
}

/// The empty slots of the realm token's claims.
pub open spec fn realm_schema() -> Map<u32, ClaimView> {
    Map::empty()
        .insert(
            CCA_REALM_CHALLENGE,
            slot(true, ClaimValue::Bstr(Seq::empty()), "Realm challenge"@),
        )
        .insert(CCA_REALM_PROFILE, slot(false, ClaimValue::Text(Seq::empty()), "Realm profile"@))
        .insert(
            CCA_REALM_PERSONALIZATION_VALUE,
            slot(true, ClaimValue::Bstr(Seq::empty()), "Realm personalization value"@),
        )
        .insert(
            CCA_REALM_HASH_ALGO_ID,
            slot(true, ClaimValue::Text(Seq::empty()), "Realm hash algo id"@),
        )
        .insert(
            CCA_REALM_PUB_KEY_HASH_ALGO_ID,
            slot(true, ClaimValue::Text(Seq::empty()), "Realm public key hash algo id"@),
        )
        .insert(
            CCA_REALM_PUB_KEY,
            slot(true, ClaimValue::Bstr(Seq::empty()), "Realm signing public key"@),
        )
        .insert(
            CCA_REALM_INITIAL_MEASUREMENT,
            slot(true, ClaimValue::Bstr(Seq::empty()), "Realm initial measurement"@),
        )
}

/// The empty slots of the extensible measurements: one for each ordinal below
/// `upto`.
pub open spec fn measurement_slots(upto: nat) -> Map<u32, ClaimView> {
    Map::new(
        |ordinal: u32| ordinal < upto,
        |ordinal: u32|
            slot(true, ClaimValue::Bstr(Seq::empty()), "Realm extensible measurement"@),
    )
}

/// The empty slots of the four extensible measurements, by ordinal.
pub open spec fn measurement_schema() -> Map<u32, ClaimView> {
    measurement_slots(CLAIM_COUNT_REALM_EXTENSIBLE_MEASUREMENTS as nat)
}

impl RealmTokenView {
    /// Whether the token has the slots of a realm token: the seven claims, and the four
    /// extensible measurements under the ordinals 0 to 3.
    pub open spec fn wf(self) -> bool {
        &&& same_shape(self.token_claims, realm_schema())
        &&& same_shape(self.measurement_claims, measurement_schema())
    }

    /// Whether the token is well-formed and lacks nothing: every mandatory claim and each of
    /// the four measurements was written.
    pub open spec fn complete(self) -> bool {
        &&& self.wf()
        &&& all_present(self.token_claims)
        &&& all_present(self.measurement_claims)
    }

    /// The realm token before anything was extracted.
    pub open spec fn empty() -> RealmTokenView {
        RealmTokenView {
            cose_sign1: SignedObjectView::empty(),
            token_claims: realm_schema(),
            measurement_claims: measurement_schema(),
        }
    }
}

/// The empty slots of the four extensible measurements.
pub fn new_measurement_claims() -> (claims: ClaimsMap)
    ensures
        claims_view(claims) == measurement_schema(),
        claims@.len() == CLAIM_COUNT_REALM_EXTENSIBLE_MEASUREMENTS,
{
    let mut claims: ClaimsMap = HashMap::new();
    let mut count: u32 = 0;
    assert(claims_view(claims) =~= measurement_slots(0));
    while count < 4
        invariant
            count <= 4,
            claims_view(claims) == measurement_slots(count as nat),
            claims@.len() == count,
            forall|ordinal: u32| claims@.contains_key(ordinal) ==> ordinal < count,
        decreases 4 - count,
    {
        let ghost before = claims;
        let claim = Claim::new(true, ClaimData::new_bstr(), "Realm extensible measurement");
        let ghost written = claim;
        claims.insert(count, claim);
        proof {
            lemma_claims_view_insert(before, claims, count, written);
        }
        count += 1;
        assert(claims_view(claims) =~= measurement_slots(count as nat));
    }
    claims
}

impl RealmToken {
    /// A realm token whose slots are all empty.
    pub fn new() -> (res: Self)
        ensures
            res@ == RealmTokenView::empty(),
            res@.wf(),
            res.token_claims@.len() == CLAIM_COUNT_REALM_TOKEN,
            res.measurement_claims@.len() == CLAIM_COUNT_REALM_EXTENSIBLE_MEASUREMENTS,
    {
        let mut token_claims: ClaimsMap = HashMap::new();
        token_claims.insert(
            CCA_REALM_CHALLENGE,
            Claim::new(true, ClaimData::new_bstr(), "Realm challenge"),
        );
        token_claims.insert(
            CCA_REALM_PROFILE,
            Claim::new(false, ClaimData::new_text(), "Realm profile"),
        );
        token_claims.insert(
            CCA_REALM_PERSONALIZATION_VALUE,
            Claim::new(true, ClaimData::new_bstr(), "Realm personalization value"),
        );
        token_claims.insert(
            CCA_REALM_HASH_ALGO_ID,
            Claim::new(true, ClaimData::new_text(), "Realm hash algo id"),
        );
        token_claims.insert(
            CCA_REALM_PUB_KEY_HASH_ALGO_ID,
            Claim::new(true, ClaimData::new_text(), "Realm public key hash algo id"),
        );
        token_claims.insert(
            CCA_REALM_PUB_KEY,
            Claim::new(true, ClaimData::new_bstr(), "Realm signing public key"),
        );
        token_claims.insert(
            CCA_REALM_INITIAL_MEASUREMENT,
            Claim::new(true, ClaimData::new_bstr(), "Realm initial measurement"),
        );
        assert(claims_view(token_claims) =~= realm_schema());
        Self {
            cose_sign1: SignedObject::new(),
            token_claims,
            measurement_claims: new_measurement_claims(),
        }
    }
}

/// The views of software components, slot by slot.
pub open spec fn components_view(components: Seq<SwComponent>) -> Seq<SwComponentView> {
    Seq::new(components.len(), |i: int| components[i]@)
}

/// The platform token: its signed object, its claims, and 32 slots for its
/// software components.
#[derive(Debug)]
pub struct PlatformToken {
    pub cose_sign1: SignedObject,
    pub token_claims: ClaimsMap,
    pub sw_component_claims: Vec<SwComponent>,
}

/// A platform token as mathematics.
pub struct PlatformTokenView {
    pub cose_sign1: SignedObjectView,
    pub token_claims: Map<u32, ClaimView>,
    pub sw_component_claims: Seq<SwComponentView>,
}

impl View for PlatformToken {
    type V = PlatformTokenView;

    open spec fn view(&self) -> PlatformTokenView {
        PlatformTokenView {
            cose_sign1: self.cose_sign1@,
            token_claims: claims_view(self.token_claims),
            sw_component_claims: components_view(self.sw_component_claims@),
        }
    }
}

/// The empty slots of the platform token's claims.
pub open spec fn platform_schema() -> Map<u32, ClaimView> {
    Map::empty()
        .insert(CCA_PLAT_CHALLENGE, slot(true, ClaimValue::Bstr(Seq::empty()), "Challange"@))
        .insert(
            CCA_PLAT_VERIFICATION_SERVICE,
            slot(false, ClaimValue::Text(Seq::empty()), "Verification service"@),
        )
        .insert(CCA_PLAT_PROFILE, slot(true, ClaimValue::Text(Seq::empty()), "Profile"@))
        .insert(CCA_PLAT_INSTANCE_ID, slot(true, ClaimValue::Bstr(Seq::empty()), "Instance ID"@))
        .insert(
            CCA_PLAT_IMPLEMENTATION_ID,
            slot(true, ClaimValue::Bstr(Seq::empty()), "Implementation ID"@),
        )
        .insert(CCA_PLAT_SECURITY_LIFECYCLE, slot(true, ClaimValue::Int64(0), "Lifecycle"@))
        .insert(
            CCA_PLAT_CONFIGURATION,
            slot(true, ClaimValue::Bstr(Seq::empty()), "Configuration"@),
        )
        .insert(
            CCA_PLAT_HASH_ALGO_ID,
            slot(true, ClaimValue::Text(Seq::empty()), "Platform hash algo"@),
        )
}

/// `count` unused software component slots.
pub open spec fn unused_components(count: nat) -> Seq<SwComponentView> {
    Seq::new(count, |i: int| SwComponentView::empty())
}

impl PlatformTokenView {
    /// Whether the token has the slots of a platform token: the eight claims, and 32 software
    /// components with five claims each, of which the first few are in use and the rest are not.
    pub open spec fn wf(self) -> bool {
        &&& same_shape(self.token_claims, platform_schema())
        &&& self.sw_component_claims.len() == MAX_SW_COMPONENT_COUNT
        &&& forall|i: int|
            0 <= i < self.sw_component_claims.len() ==> same_shape(
                (#[trigger] self.sw_component_claims[i]).claims,
                sw_component_schema(),
            )
        &&& exists|count: int| in_use(self.sw_component_claims, count)
    }

    /// Whether the token is well-formed and lacks nothing: every mandatory claim was written,
    /// between 1 and 32 software components are in use, from the first slot on without a gap,
    /// and every mandatory claim of a component in use was written.
    pub open spec fn complete(self) -> bool {
        &&& self.wf()
        &&& all_present(self.token_claims)
        &&& exists|count: int| 1 <= count && in_use(self.sw_component_claims, count)
        &&& forall|i: int|
            0 <= i < self.sw_component_claims.len() && (
            #[trigger] self.sw_component_claims[i]).present ==> all_present(
                self.sw_component_claims[i].claims,
            )
    }

    /// The platform token before anything was extracted.
    pub open spec fn empty() -> PlatformTokenView {
        PlatformTokenView {
            cose_sign1: SignedObjectView::empty(),
            token_claims: platform_schema(),
            sw_component_claims: unused_components(MAX_SW_COMPONENT_COUNT as nat),
        }
    }
}

impl PlatformToken {
    /// A platform token whose slots are all empty, those of its 32 software
    /// components included.
    pub fn new() -> (res: Self)
        ensures
            res@ == PlatformTokenView::empty(),
            res@.wf(),
            res.token_claims@.len() == CLAIM_COUNT_PLATFORM_TOKEN,
            res.sw_component_claims@.len() == MAX_SW_COMPONENT_COUNT,
    {
        let mut token_claims: ClaimsMap = HashMap::new();
        token_claims.insert(
            CCA_PLAT_CHALLENGE,
            Claim::new(true, ClaimData::new_bstr(), "Challange"),
        );
        token_claims.insert(
            CCA_PLAT_VERIFICATION_SERVICE,
            Claim::new(false, ClaimData::new_text(), "Verification service"),
        );
        token_claims.insert(CCA_PLAT_PROFILE, Claim::new(true, ClaimData::new_text(), "Profile"));
        token_claims.insert(
            CCA_PLAT_INSTANCE_ID,
            Claim::new(true, ClaimData::new_bstr(), "Instance ID"),
        );
        token_claims.insert(
            CCA_PLAT_IMPLEMENTATION_ID,
            Claim::new(true, ClaimData::new_bstr(), "Implementation ID"),
        );
        token_claims.insert(
            CCA_PLAT_SECURITY_LIFECYCLE,
            Claim::new(true, ClaimData::new_int64(), "Lifecycle"),
        );
        token_claims.insert(
            CCA_PLAT_CONFIGURATION,
            Claim::new(true, ClaimData::new_bstr(), "Configuration"),
        );
        token_claims.insert(
            CCA_PLAT_HASH_ALGO_ID,
            Claim::new(true, ClaimData::new_text(), "Platform hash algo"),
        );
        assert(claims_view(token_claims) =~= platform_schema());

        let mut sw_component_claims: Vec<SwComponent> = Vec::new();
        while sw_component_claims.len() < MAX_SW_COMPONENT_COUNT
            invariant
                sw_component_claims.len() <= MAX_SW_COMPONENT_COUNT,
                components_view(sw_component_claims@) == unused_components(
                    sw_component_claims.len() as nat,
                ),
            decreases MAX_SW_COMPONENT_COUNT - sw_component_claims.len(),
        {
            let ghost before = components_view(sw_component_claims@);
            sw_component_claims.push(SwComponent::new());
            assert(components_view(sw_component_claims@) =~= before.push(
                SwComponentView::empty(),
            ));
            assert(components_view(sw_component_claims@) =~= unused_components(
                sw_component_claims.len() as nat,
            ));
        }
        proof {
            lemma_empty_platform_token_wf(SignedObjectView::empty());
        }
        Self { cose_sign1: SignedObject::new(), token_claims, sw_component_claims }
    }
}

/// A platform token whose slots are all empty is well-formed, whatever its signed object.
pub proof fn lemma_empty_platform_token_wf(signed: SignedObjectView)
    ensures
        (PlatformTokenView {
            cose_sign1: signed,
            token_claims: platform_schema(),
            sw_component_claims: unused_components(MAX_SW_COMPONENT_COUNT as nat),
        }).wf(),
{
    let token = PlatformTokenView {
        cose_sign1: signed,
        token_claims: platform_schema(),
        sw_component_claims: unused_components(MAX_SW_COMPONENT_COUNT as nat),
    };
    assert(in_use(token.sw_component_claims, 0));
}

/// The two tokens of one attestation.
#[derive(Debug)]
pub struct AttestationClaims {
    pub realm_claims: RealmToken,
    pub platform_claims: PlatformToken,
}

/// The two tokens as mathematics.
pub struct AttestationView {
    pub realm_claims: RealmTokenView,
    pub platform_claims: PlatformTokenView,
}

impl AttestationView {
    /// Whether both tokens are well-formed and lack nothing.
    pub open spec fn complete(self) -> bool {
        self.realm_claims.complete() && self.platform_claims.complete()
    }
}

impl View for AttestationClaims {
    type V = AttestationView;

    open spec fn view(&self) -> AttestationView {
        AttestationView {
            realm_claims: self.realm_claims@,
            platform_claims: self.platform_claims@,
        }
    }
}

impl AttestationClaims {
    /// The pair of a realm token and a platform token.
    pub fn new(realm_claims: RealmToken, platform_claims: PlatformToken) -> (res: Self)
        ensures
            res.realm_claims == realm_claims,
            res.platform_claims == platform_claims,
    {
        Self { realm_claims, platform_claims }
    }
}

} // verus!
