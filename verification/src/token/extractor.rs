//! Filling the claims of a token from the payload of its signed object.

use vstd::prelude::*;
use crate::token::{
    all_present, AttestationClaims, AttestationView, CCA_PLAT_CHALLENGE, CCA_PLAT_CONFIGURATION,
    CCA_PLAT_HASH_ALGO_ID, CCA_PLAT_IMPLEMENTATION_ID, CCA_PLAT_INSTANCE_ID, CCA_PLAT_PROFILE,
    CCA_PLAT_SECURITY_LIFECYCLE, CCA_PLAT_SW_COMPONENTS, CCA_PLAT_VERIFICATION_SERVICE,
    CCA_REALM_CHALLENGE, CCA_REALM_EXTENSIBLE_MEASUREMENTS, CCA_REALM_HASH_ALGO_ID,
    CCA_REALM_INITIAL_MEASUREMENT, CCA_REALM_PERSONALIZATION_VALUE, CCA_REALM_PROFILE,
    CCA_REALM_PUB_KEY, CCA_REALM_PUB_KEY_HASH_ALGO_ID, CCA_SW_COMP_HASH_ALGORITHM,
    CCA_SW_COMP_MEASUREMENT_VALUE, CCA_SW_COMP_SIGNER_ID, CCA_SW_COMP_TITLE, CCA_SW_COMP_VERSION,
    Claim, ClaimData, claims_view, ClaimsMap, ClaimValue, ClaimView, components_view, in_use,
    lemma_claims_view_insert, lemma_empty_platform_token_wf, MAX_SW_COMPONENT_COUNT,
    measurement_schema, new_measurement_claims, platform_schema, PlatformToken, PlatformTokenView,
    realm_schema, RealmToken, RealmTokenView, same_shape, SignedObject, SignedObjectView,
    sw_component_schema, SwComponent, SwComponentView, unused_components,
};
use crate::token::cbor::{
    Cbor, cbor_decoding, CborValue, decode, entries_model, items_model, lemma_array_model,
    lemma_mapping_model,
};
use crate::token::envelope::{decode_envelope, envelope, key_label, label_of};
use crate::token::error::{Fault, TokenError};

verus! {

broadcast use vstd::std_specs::hash::group_hash_axioms;

/// Walks `items` from the first to the last, each one taking the state on, and stops at the
/// first error.
pub open spec fn try_fold<S, T>(
    state: S,
    items: Seq<T>,
    step: spec_fn(S, T) -> Result<S, Fault>,
) -> Result<S, Fault>
    decreases items.len(),
{
    if items.len() == 0 {
        Ok(state)
    } else {
        match try_fold(state, items.drop_last(), step) {
            Err(e) => Err(e),
            Ok(sofar) => step(sofar, items.last()),
        }
    }
}

/// The walk over one item more is the walk so far, then that item's step.
pub proof fn lemma_try_fold_next<S, T>(
    state: S,
    items: Seq<T>,
    step: spec_fn(S, T) -> Result<S, Fault>,
    k: int,
)
    requires
        0 <= k < items.len(),
    ensures
        try_fold(state, items.take(k + 1), step) == match try_fold(state, items.take(k), step) {
            Err::<S, Fault>(e) => Err::<S, Fault>(e),
            Ok(sofar) => step(sofar, items[k]),
        },
{
    assert(items.take(k + 1).drop_last() =~= items.take(k));
    assert(items.take(k + 1).last() == items[k]);
}

/// An error that the walk meets on the way is the error of the whole walk.
pub proof fn lemma_try_fold_stops<S, T>(
    state: S,
    items: Seq<T>,
    step: spec_fn(S, T) -> Result<S, Fault>,
    k: int,
)
    requires
        0 <= k <= items.len(),
        try_fold(state, items.take(k), step) is Err,
    ensures
        try_fold(state, items, step) == try_fold(state, items.take(k), step),
    decreases items.len() - k,
{
    if k < items.len() {
        lemma_try_fold_next(state, items, step, k);
        lemma_try_fold_stops(state, items, step, k + 1);
    } else {
        assert(items.take(k) =~= items);
    }
}

/// The value that an item gives to a claim whose slot holds `expected`: the item's content,
/// where the item is of the slot's kind. An integer must fit in 64 bits.
pub open spec fn coerce(expected: ClaimValue, value: Cbor) -> Option<ClaimValue> {
    match (expected, value) {
        (ClaimValue::Bool(_), Cbor::Bool(b)) => Some(ClaimValue::Bool(b)),
        (ClaimValue::Int64(_), Cbor::Integer(number)) => if i64::MIN <= number <= i64::MAX {
            Some(ClaimValue::Int64(number as i64))
        } else {
            None
        },
        (ClaimValue::Bstr(_), Cbor::Bytes(bytes)) => Some(ClaimValue::Bstr(bytes)),
        (ClaimValue::Text(_), Cbor::Text(text)) => Some(ClaimValue::Text(text)),
        _ => None,
    }
}

/// A slot after `data` was written into it.
pub open spec fn written(claim: ClaimView, data: ClaimValue) -> ClaimView {
    ClaimView { mandatory: claim.mandatory, title: claim.title, present: true, data }
}

/// The claims after the entry `label: value` was read. A label without a slot changes nothing;
/// a value of another kind than the slot's is an error.
pub open spec fn store_claim(claims: Map<u32, ClaimView>, label: u32, value: Cbor) -> Result<
    Map<u32, ClaimView>,
    Fault,
> {
    if !claims.contains_key(label) {
        Ok(claims)
    } else {
        match coerce(claims[label].data, value) {
            Some(data) => Ok(claims.insert(label, written(claims[label], data))),
            None => Err(Fault::ClaimDataMisMatchType),
        }
    }
}

/// The claims after one entry of a map was read. An entry whose key stands for no label changes
/// nothing.
pub open spec fn claim_step(claims: Map<u32, ClaimView>, entry: (Cbor, Cbor)) -> Result<
    Map<u32, ClaimView>,
    Fault,
> {
    match label_of(entry.0) {
        None => Ok(claims),
        Some(label) => store_claim(claims, label, entry.1),
    }
}

/// `claim_step` as a value.
pub open spec fn claim_stepper() -> spec_fn(Map<u32, ClaimView>, (Cbor, Cbor)) -> Result<
    Map<u32, ClaimView>,
    Fault,
> {
    |claims: Map<u32, ClaimView>, entry: (Cbor, Cbor)| claim_step(claims, entry)
}

/// The claims after the entries of a map were read, in the order of the encoding: a later entry
/// overwrites what an earlier one wrote under the same label.
pub open spec fn extract_claims(claims: Map<u32, ClaimView>, entries: Seq<(Cbor, Cbor)>)
    -> Result<Map<u32, ClaimView>, Fault> {
    try_fold(claims, entries, claim_stepper())
}

/// The value that `value` gives to a claim whose slot holds `expected`.
pub fn convert(expected: &ClaimData, value: &CborValue) -> (res: Option<ClaimData>)
    ensures
        match res {
            Some(data) => coerce(expected@, value@) == Some(data@),
            None => coerce(expected@, value@) is None,
        },
{
    match expected {
        ClaimData::Bool(_) => match value {
            CborValue::Bool(b) => Some(ClaimData::Bool(*b)),
            _ => None,
        },
        ClaimData::Int64(_) => match value {
            CborValue::Integer(number) => {
                if -0x8000_0000_0000_0000 <= *number && *number <= 0x7fff_ffff_ffff_ffff {
                    Some(ClaimData::Int64(*number as i64))
                } else {
                    None
                }
            },
            _ => None,
        },
        ClaimData::Bstr(_) => match value {
            CborValue::Bytes(bytes) => Some(ClaimData::Bstr(bytes.clone())),
            _ => None,
        },
        ClaimData::Text(_) => match value {
            CborValue::Text(text) => Some(ClaimData::Text(text.clone())),
            _ => None,
        },
    }
}

/// Reads the entry `label: value` into `claims`. On an error the claims are as they were.
pub fn store(claims: &mut ClaimsMap, label: u32, value: &CborValue) -> (res: Result<
    (),
    TokenError,
>)
    ensures
        match res {
            Ok(_) => store_claim(claims_view(*old(claims)), label, value@) == Ok::<
                Map<u32, ClaimView>,
                Fault,
            >(claims_view(*final(claims))),
            Err(e) => store_claim(claims_view(*old(claims)), label, value@) == Err::<
                Map<u32, ClaimView>,
                Fault,
            >(e@) && *final(claims) == *old(claims),
        },
{
    let claim = match claims.get(&label) {
        Some(claim) => claim,
        None => { return Ok(()); },
    };
    let data = match convert(&claim.data, value) {
        Some(data) => data,
        None => { return Err(TokenError::ClaimDataMisMatchType); },
    };
    let filled = Claim { mandatory: claim.mandatory, title: claim.title.clone(), present: true, data };
    let ghost before = *claims;
    let ghost stored = filled;
    claims.insert(label, filled);
    proof {
        lemma_claims_view_insert(before, *claims, label, stored);
    }
    Ok(())
}

/// Reads the entries of a map into `claims`, in the order of the encoding.
pub fn read_claims(claims: &mut ClaimsMap, entries: &Vec<(CborValue, CborValue)>) -> (res: Result<
    (),
    TokenError,
>)
    ensures
        match res {
            Ok(_) => extract_claims(claims_view(*old(claims)), entries_model(entries@)) == Ok::<
                Map<u32, ClaimView>,
                Fault,
            >(claims_view(*final(claims))),
            Err(e) => extract_claims(claims_view(*old(claims)), entries_model(entries@)) == Err::<
                Map<u32, ClaimView>,
                Fault,
            >(e@),
        },
{
    let ghost start = claims_view(*claims);
    let ghost model = entries_model(entries@);
    let mut at: usize = 0;
    while at < entries.len()
        invariant
            at <= entries.len(),
            start == claims_view(*old(claims)),
            model == entries_model(entries@),
            try_fold(start, model.take(at as int), claim_stepper()) == Ok::<
                Map<u32, ClaimView>,
                Fault,
            >(claims_view(*claims)),
        decreases entries.len() - at,
    {
        proof {
            lemma_try_fold_next(start, model, claim_stepper(), at as int);
        }
        let entry = &entries[at];
        match key_label(&entry.0) {
            Some(label) => {
                match store(claims, label, &entry.1) {
                    Ok(_) => {},
                    Err(e) => {
                        proof {
                            lemma_try_fold_stops(start, model, claim_stepper(), at + 1);
                        }
                        return Err(e);
                    },
                }
            },
            None => {},
        }
        at += 1;
    }
    assert(model.take(at as int) =~= model);
    Ok(())
}

/// The software component that an item describes: the item must be a map, and its entries are
/// read into the five empty slots of a component.
pub open spec fn component_of(item: Cbor) -> Result<SwComponentView, Fault> {
    match item {
        Cbor::Mapping(entries) => match extract_claims(sw_component_schema(), entries) {
            Ok(claims) => Ok(SwComponentView { present: true, claims }),
            Err(e) => Err(e),
        },
        _ => Err(Fault::ClaimDataMisMatchType),
    }
}

/// The 32 slots that the value of the software components claim fills.
///
/// The value must be an array of 1 to 32 items, else the format is invalid. Item `i` fills slot
/// `i`, and the slots behind the last item are unused. An item that describes no component is a
/// mismatch.
pub open spec fn components_of(value: Cbor) -> Result<Seq<SwComponentView>, Fault> {
    match value {
        Cbor::Array(items) => if items.len() < 1 || items.len() > MAX_SW_COMPONENT_COUNT {
            Err(Fault::InvalidTokenFormat("software component count"@))
        } else if exists|i: int| 0 <= i < items.len() && #[trigger] component_of(items[i]) is Err {
            Err(Fault::ClaimDataMisMatchType)
        } else {
            Ok(
                Seq::new(
                    MAX_SW_COMPONENT_COUNT as nat,
                    |i: int|
                        if i < items.len() {
                            component_of(items[i])->Ok_0
                        } else {
                            SwComponentView::empty()
                        },
                ),
            )
        },
        _ => Err(Fault::ClaimDataMisMatchType),
    }
}

/// The four measurement slots that the value of the extensible measurements claim fills.
///
/// The value must be an array of exactly 4 items, else the format is invalid, and each item a
/// byte string, else it is a mismatch. Item `i` is the measurement of ordinal `i`.
pub open spec fn measurements_of(value: Cbor) -> Result<Map<u32, ClaimView>, Fault> {
    match value {
        Cbor::Array(items) => if items.len() != 4 {
            Err(Fault::InvalidTokenFormat("extensible measurement count"@))
        } else if exists|i: int| 0 <= i < 4 && !(#[trigger] items[i] is Bytes) {
            Err(Fault::ClaimDataMisMatchType)
        } else {
            Ok(
                Map::new(
                    |ordinal: u32| ordinal < 4,
                    |ordinal: u32|
                        written(
                            measurement_schema()[ordinal],
                            ClaimValue::Bstr(items[ordinal as int]->Bytes_0),
                        ),
                ),
            )
        },
        _ => Err(Fault::ClaimDataMisMatchType),
    }
}

/// The platform token after one entry of its payload was read: the software components claim
/// replaces the 32 slots, any other label goes to the token's claims.
pub open spec fn platform_step(token: PlatformTokenView, entry: (Cbor, Cbor)) -> Result<
    PlatformTokenView,
    Fault,
> {
    match label_of(entry.0) {
        None => Ok(token),
        Some(label) => if label == CCA_PLAT_SW_COMPONENTS {
            match components_of(entry.1) {
                Ok(components) => Ok(
                    PlatformTokenView {
                        cose_sign1: token.cose_sign1,
                        token_claims: token.token_claims,
                        sw_component_claims: components,
                    },
                ),
                Err(e) => Err(e),
            }
        } else {
            match store_claim(token.token_claims, label, entry.1) {
                Ok(claims) => Ok(
                    PlatformTokenView {
                        cose_sign1: token.cose_sign1,
                        token_claims: claims,
                        sw_component_claims: token.sw_component_claims,
                    },
                ),
                Err(e) => Err(e),
            }
        },
    }
}

/// `platform_step` as a value.
pub open spec fn platform_stepper() -> spec_fn(PlatformTokenView, (Cbor, Cbor)) -> Result<
    PlatformTokenView,
    Fault,
> {
    |token: PlatformTokenView, entry: (Cbor, Cbor)| platform_step(token, entry)
}

/// The realm token after one entry of its payload was read: the extensible measurements claim
/// replaces the four measurements, any other label goes to the token's claims.
pub open spec fn realm_step(token: RealmTokenView, entry: (Cbor, Cbor)) -> Result<
    RealmTokenView,
    Fault,
> {
    match label_of(entry.0) {
        None => Ok(token),
        Some(label) => if label == CCA_REALM_EXTENSIBLE_MEASUREMENTS {
            match measurements_of(entry.1) {
                Ok(measurements) => Ok(
                    RealmTokenView {
                        cose_sign1: token.cose_sign1,
                        token_claims: token.token_claims,
                        measurement_claims: measurements,
                    },
                ),
                Err(e) => Err(e),
            }
        } else {
            match store_claim(token.token_claims, label, entry.1) {
                Ok(claims) => Ok(
                    RealmTokenView {
                        cose_sign1: token.cose_sign1,
                        token_claims: claims,
                        measurement_claims: token.measurement_claims,
                    },
                ),
                Err(e) => Err(e),
            }
        },
    }
}

/// `realm_step` as a value.
pub open spec fn realm_stepper() -> spec_fn(RealmTokenView, (Cbor, Cbor)) -> Result<
    RealmTokenView,
    Fault,
> {
    |token: RealmTokenView, entry: (Cbor, Cbor)| realm_step(token, entry)
}

/// Fills the 32 slots of the software components from the value of their claim.
pub fn read_components(value: &CborValue) -> (res: Result<Vec<SwComponent>, TokenError>)
    ensures
        match res {
            Ok(components) => components_of(value@) == Ok::<Seq<SwComponentView>, Fault>(
                components_view(components@),
            ),
            Err(e) => components_of(value@) == Err::<Seq<SwComponentView>, Fault>(e@),
        },
{
    let items = match value {
        CborValue::Array(items) => items,
        _ => { return Err(TokenError::ClaimDataMisMatchType); },
    };
    proof {
        lemma_array_model(*items);
    }
    if items.len() < 1 || items.len() > MAX_SW_COMPONENT_COUNT {
        return Err(TokenError::InvalidTokenFormat("software component count"));
    }
    let ghost model = items_model(items@);
    let mut components: Vec<SwComponent> = Vec::new();
    let mut at: usize = 0;
    while at < items.len()
        invariant
            at <= items.len(),
            1 <= items.len() <= MAX_SW_COMPONENT_COUNT,
            model == items_model(items@),
            value@ == Cbor::Array(model),
            components.len() == at,
            forall|j: int|
                0 <= j < at ==> #[trigger] component_of(model[j]) == Ok::<SwComponentView, Fault>(
                    components@[j]@,
                ),
        decreases items.len() - at,
    {
        let mut claims: ClaimsMap = SwComponent::new().claims;
        match &items[at] {
            CborValue::Mapping(entries) => {
                proof {
                    lemma_mapping_model(*entries);
                }
                match read_claims(&mut claims, entries) {
                    Ok(_) => {},
                    Err(_) => {
                        assert(component_of(model[at as int]) is Err);
                        return Err(TokenError::ClaimDataMisMatchType);
                    },
                }
            },
            _ => {
                assert(component_of(model[at as int]) is Err);
                return Err(TokenError::ClaimDataMisMatchType);
            },
        }
        components.push(SwComponent { present: true, claims });
        at += 1;
    }
    while components.len() < MAX_SW_COMPONENT_COUNT
        invariant
            1 <= items.len() <= components.len() <= MAX_SW_COMPONENT_COUNT,
            model == items_model(items@),
            value@ == Cbor::Array(model),
            forall|j: int|
                0 <= j < items.len() ==> #[trigger] component_of(model[j]) == Ok::<
                    SwComponentView,
                    Fault,
                >(components@[j]@),
            forall|j: int|
                items.len() <= j < components.len() ==> (#[trigger] components@[j])@
                    == SwComponentView::empty(),
        decreases MAX_SW_COMPONENT_COUNT - components.len(),
    {
        components.push(SwComponent::new());
    }
    assert(components_view(components@) =~= components_of(value@)->Ok_0);
    Ok(components)
}

/// Fills the four measurement slots from the value of the extensible measurements claim.
pub fn read_measurements(value: &CborValue) -> (res: Result<ClaimsMap, TokenError>)
    ensures
        match res {
            Ok(claims) => measurements_of(value@) == Ok::<Map<u32, ClaimView>, Fault>(
                claims_view(claims),
            ),
            Err(e) => measurements_of(value@) == Err::<Map<u32, ClaimView>, Fault>(e@),
        },
{
    let items = match value {
        CborValue::Array(items) => items,
        _ => { return Err(TokenError::ClaimDataMisMatchType); },
    };
    proof {
        lemma_array_model(*items);
    }
    if items.len() != 4 {
        return Err(TokenError::InvalidTokenFormat("extensible measurement count"));
    }
    let ghost model = items_model(items@);
    let mut claims: ClaimsMap = new_measurement_claims();
    let mut ordinal: u32 = 0;
    while ordinal < 4
        invariant
            ordinal <= 4,
            items.len() == 4,
            model == items_model(items@),
            value@ == Cbor::Array(model),
            forall|j: int| 0 <= j < ordinal ==> #[trigger] model[j] is Bytes,
            claims_view(claims) == Map::new(
                |o: u32| o < 4,
                |o: u32|
                    if o < ordinal {
                        written(measurement_schema()[o], ClaimValue::Bstr(model[o as int]->Bytes_0))
                    } else {
                        measurement_schema()[o]
                    },
            ),
        decreases 4 - ordinal,
    {
        let ghost before = claims_view(claims);
        match store(&mut claims, ordinal, &items[ordinal as usize]) {
            Ok(_) => {},
            Err(_) => {
                assert(!(model[ordinal as int] is Bytes));
                return Err(TokenError::ClaimDataMisMatchType);
            },
        }
        assert(model[ordinal as int] is Bytes);
        ordinal += 1;
        assert(claims_view(claims) =~= Map::new(
            |o: u32| o < 4,
            |o: u32|
                if o < ordinal {
                    written(measurement_schema()[o], ClaimValue::Bstr(model[o as int]->Bytes_0))
                } else {
                    measurement_schema()[o]
                },
        ));
    }
    assert(claims_view(claims) =~= measurements_of(value@)->Ok_0);
    Ok(claims)
}

/// Reads the entries of a platform token's payload into the token, in the order of the encoding.
pub fn read_platform_entries(token: PlatformToken, entries: &Vec<(CborValue, CborValue)>) -> (res:
    Result<PlatformToken, TokenError>)
    ensures
        match res {
            Ok(filled) => try_fold(token@, entries_model(entries@), platform_stepper()) == Ok::<
                PlatformTokenView,
                Fault,
            >(filled@),
            Err(e) => try_fold(token@, entries_model(entries@), platform_stepper()) == Err::<
                PlatformTokenView,
                Fault,
            >(e@),
        },
{
    let ghost start = token@;
    let ghost model = entries_model(entries@);
    let mut filled = token;
    let mut at: usize = 0;
    while at < entries.len()
        invariant
            at <= entries.len(),
            start == token@,
            model == entries_model(entries@),
            try_fold(start, model.take(at as int), platform_stepper()) == Ok::<
                PlatformTokenView,
                Fault,
            >(filled@),
        decreases entries.len() - at,
    {
        proof {
            lemma_try_fold_next(start, model, platform_stepper(), at as int);
        }
        let entry = &entries[at];
        match key_label(&entry.0) {
            Some(label) => {
                if label == CCA_PLAT_SW_COMPONENTS {
                    match read_components(&entry.1) {
                        Ok(components) => {
                            filled.sw_component_claims = components;
                        },
                        Err(e) => {
                            proof {
                                lemma_try_fold_stops(start, model, platform_stepper(), at + 1);
                            }
                            return Err(e);
                        },
                    }
                } else {
                    match store(&mut filled.token_claims, label, &entry.1) {
                        Ok(_) => {},
                        Err(e) => {
                            proof {
                                lemma_try_fold_stops(start, model, platform_stepper(), at + 1);
                            }
                            return Err(e);
                        },
                    }
                }
            },
            None => {},
        }
        at += 1;
    }
    assert(model.take(at as int) =~= model);
    Ok(filled)
}

/// Reads the entries of a realm token's payload into the token, in the order of the encoding.
pub fn read_realm_entries(token: RealmToken, entries: &Vec<(CborValue, CborValue)>) -> (res:
    Result<RealmToken, TokenError>)
    ensures
        match res {
            Ok(filled) => try_fold(token@, entries_model(entries@), realm_stepper()) == Ok::<
                RealmTokenView,
                Fault,
            >(filled@),
            Err(e) => try_fold(token@, entries_model(entries@), realm_stepper()) == Err::<RealmTokenView, Fault>(
                e@,
            ),
        },
{
    let ghost start = token@;
    let ghost model = entries_model(entries@);
    let mut filled = token;
    let mut at: usize = 0;
    while at < entries.len()
        invariant
            at <= entries.len(),
            start == token@,
            model == entries_model(entries@),
            try_fold(start, model.take(at as int), realm_stepper()) == Ok::<
                RealmTokenView,
                Fault,
            >(filled@),
        decreases entries.len() - at,
    {
        proof {
            lemma_try_fold_next(start, model, realm_stepper(), at as int);
        }
        let entry = &entries[at];
        match key_label(&entry.0) {
            Some(label) => {
                if label == CCA_REALM_EXTENSIBLE_MEASUREMENTS {
                    match read_measurements(&entry.1) {
                        Ok(measurements) => {
                            filled.measurement_claims = measurements;
                        },
                        Err(e) => {
                            proof {
                                lemma_try_fold_stops(start, model, realm_stepper(), at + 1);
                            }
                            return Err(e);
                        },
                    }
                } else {
                    match store(&mut filled.token_claims, label, &entry.1) {
                        Ok(_) => {},
                        Err(e) => {
                            proof {
                                lemma_try_fold_stops(start, model, realm_stepper(), at + 1);
                            }
                            return Err(e);
                        },
                    }
                }
            },
            None => {},
        }
        at += 1;
    }
    assert(model.take(at as int) =~= model);
    Ok(filled)
}

/// Whether the slot under `label` is mandatory and was not written.
pub open spec fn is_missing(claims: Map<u32, ClaimView>, label: u32) -> bool {
    claims.contains_key(label) && claims[label].mandatory && !claims[label].present
}

/// The first of `labels` whose claim is missing.
pub open spec fn missing_in(claims: Map<u32, ClaimView>, labels: Seq<u32>) -> Option<u32>
    decreases labels.len(),
{
    if labels.len() == 0 {
        None
    } else if is_missing(claims, labels[0]) {
        Some(labels[0])
    } else {
        missing_in(claims, labels.drop_first())
    }
}

/// The labels of the platform token's claims, in the order in which they are checked.
pub open spec fn platform_labels() -> Seq<u32> {
    seq![
        CCA_PLAT_CHALLENGE,
        CCA_PLAT_INSTANCE_ID,
        CCA_PLAT_PROFILE,
        CCA_PLAT_SECURITY_LIFECYCLE,
        CCA_PLAT_IMPLEMENTATION_ID,
        CCA_PLAT_VERIFICATION_SERVICE,
        CCA_PLAT_CONFIGURATION,
        CCA_PLAT_HASH_ALGO_ID,
    ]
}

/// The labels of the realm token's claims, in the order in which they are checked.
pub open spec fn realm_labels() -> Seq<u32> {
    seq![
        CCA_REALM_CHALLENGE,
        CCA_REALM_PROFILE,
        CCA_REALM_PERSONALIZATION_VALUE,
        CCA_REALM_HASH_ALGO_ID,
        CCA_REALM_PUB_KEY,
        CCA_REALM_INITIAL_MEASUREMENT,
        CCA_REALM_PUB_KEY_HASH_ALGO_ID,
    ]
}

/// The labels of a software component's claims, in the order in which they are checked.
pub open spec fn component_labels() -> Seq<u32> {
    seq![
        CCA_SW_COMP_TITLE,
        CCA_SW_COMP_MEASUREMENT_VALUE,
        CCA_SW_COMP_VERSION,
        CCA_SW_COMP_SIGNER_ID,
        CCA_SW_COMP_HASH_ALGORITHM,
    ]
}

/// The ordinals of the extensible measurements.
pub open spec fn measurement_labels() -> Seq<u32> {
    seq![0u32, 1u32, 2u32, 3u32]
}

/// The first missing claim among the slots in use, slot by slot.
pub open spec fn components_missing(components: Seq<SwComponentView>) -> Option<u32>
    decreases components.len(),
{
    if components.len() == 0 {
        None
    } else if components[0].present && missing_in(components[0].claims, component_labels())
        is Some {
        missing_in(components[0].claims, component_labels())
    } else {
        components_missing(components.drop_first())
    }
}

/// The label of the first mandatory claim that a platform token lacks: one of the token's own
/// claims, then the software components as a whole where the first slot is unused, then a claim
/// of a slot in use.
pub open spec fn platform_missing(token: PlatformTokenView) -> Option<u32> {
    if missing_in(token.token_claims, platform_labels()) is Some {
        missing_in(token.token_claims, platform_labels())
    } else if token.sw_component_claims.len() == 0 || !token.sw_component_claims[0].present {
        Some(CCA_PLAT_SW_COMPONENTS)
    } else {
        components_missing(token.sw_component_claims)
    }
}

/// The label of the first mandatory claim that a realm token lacks: one of the token's own
/// claims, then the extensible measurements as a whole where one of the four is missing.
pub open spec fn realm_missing(token: RealmTokenView) -> Option<u32> {
    if missing_in(token.token_claims, realm_labels()) is Some {
        missing_in(token.token_claims, realm_labels())
    } else if missing_in(token.measurement_claims, measurement_labels()) is Some {
        Some(CCA_REALM_EXTENSIBLE_MEASUREMENTS)
    } else {
        None
    }
}

/// The platform token whose slots the entries of a payload have filled, before anything is
/// checked for being there.
pub open spec fn platform_filled(signed: SignedObjectView, entries: Seq<(Cbor, Cbor)>)
    -> Result<PlatformTokenView, Fault> {
    try_fold(
        PlatformTokenView {
            cose_sign1: signed,
            token_claims: platform_schema(),
            sw_component_claims: unused_components(MAX_SW_COMPONENT_COUNT as nat),
        },
        entries,
        platform_stepper(),
    )
}

/// The realm token whose slots the entries of a payload have filled, before anything is checked
/// for being there.
pub open spec fn realm_filled(signed: SignedObjectView, entries: Seq<(Cbor, Cbor)>)
    -> Result<RealmTokenView, Fault> {
    try_fold(
        RealmTokenView {
            cose_sign1: signed,
            token_claims: realm_schema(),
            measurement_claims: measurement_schema(),
        },
        entries,
        realm_stepper(),
    )
}

/// The platform token that a signed object and its decoded payload make.
///
/// The payload must be a map. Its entries fill a token whose slots are empty, in the order of
/// the encoding; then no mandatory claim may be missing.
pub open spec fn platform_token_of(signed: SignedObjectView, payload: Cbor) -> Result<
    PlatformTokenView,
    Fault,
> {
    match payload {
        Cbor::Mapping(entries) => match platform_filled(signed, entries) {
            Err(e) => Err(e),
            Ok(token) => match platform_missing(token) {
                Some(label) => Err(Fault::MissingMandatoryClaim(label)),
                None => Ok(token),
            },
        },
        _ => Err(Fault::InvalidTokenFormat("platform claims map"@)),
    }
}

/// The realm token that a signed object and its decoded payload make.
///
/// The payload must be a map. Its entries fill a token whose slots are empty, in the order of
/// the encoding; then no mandatory claim may be missing.
pub open spec fn realm_token_of(signed: SignedObjectView, payload: Cbor) -> Result<
    RealmTokenView,
    Fault,
> {
    match payload {
        Cbor::Mapping(entries) => match realm_filled(signed, entries) {
            Err(e) => Err(e),
            Ok(token) => match realm_missing(token) {
                Some(label) => Err(Fault::MissingMandatoryClaim(label)),
                None => Ok(token),
            },
        },
        _ => Err(Fault::InvalidTokenFormat("realm claims map"@)),
    }
}

/// The platform token that a signed object makes: its payload is decoded, then read.
pub open spec fn platform_token(signed: SignedObjectView) -> Result<PlatformTokenView, Fault> {
    match cbor_decoding(signed.payload) {
        None => Err(Fault::Ciborium),
        Some(payload) => platform_token_of(signed, payload),
    }
}

/// The realm token that a signed object makes: its payload is decoded, then read.
pub open spec fn realm_token(signed: SignedObjectView) -> Result<RealmTokenView, Fault> {
    match cbor_decoding(signed.payload) {
        None => Err(Fault::Ciborium),
        Some(payload) => realm_token_of(signed, payload),
    }
}

/// The two tokens that the bytes of an attestation token make: the envelope is decoded, then
/// the platform token is read, then the realm token.
pub open spec fn attestation(bytes: Seq<u8>) -> Result<AttestationView, Fault> {
    match envelope(bytes) {
        Err(e) => Err(e),
        Ok((platform_signed, realm_signed)) => match platform_token(platform_signed) {
            Err(e) => Err(e),
            Ok(platform) => match realm_token(realm_signed) {
                Err(e) => Err(e),
                Ok(realm) => Ok(AttestationView { realm_claims: realm, platform_claims: platform }),
            },
        },
    }
}

/// Finds the first of `labels` whose claim is mandatory and was not written.
pub fn first_missing(claims: &ClaimsMap, labels: &Vec<u32>) -> (res: Option<u32>)
    ensures
        res == missing_in(claims_view(*claims), labels@),
{
    let mut at: usize = 0;
    assert(labels@.skip(0) =~= labels@);
    while at < labels.len()
        invariant
            at <= labels.len(),
            missing_in(claims_view(*claims), labels@) == missing_in(
                claims_view(*claims),
                labels@.skip(at as int),
            ),
        decreases labels.len() - at,
    {
        let label: u32 = labels[at];
        assert(labels@.skip(at as int)[0] == label);
        assert(labels@.skip(at as int).drop_first() =~= labels@.skip(at + 1));
        match claims.get(&label) {
            Some(claim) => {
                if claim.mandatory && !claim.present {
                    return Some(label);
                }
            },
            None => {},
        }
        at += 1;
    }
    None
}

/// The labels of a software component's claims.
pub fn component_label_list() -> (labels: Vec<u32>)
    ensures
        labels@ == component_labels(),
{
    let labels: Vec<u32> = vec![
        CCA_SW_COMP_TITLE,
        CCA_SW_COMP_MEASUREMENT_VALUE,
        CCA_SW_COMP_VERSION,
        CCA_SW_COMP_SIGNER_ID,
        CCA_SW_COMP_HASH_ALGORITHM,
    ];
    assert(labels@ =~= component_labels());
    labels
}

/// Finds the first missing claim among the software components in use.
pub fn first_missing_in_components(components: &Vec<SwComponent>) -> (res: Option<u32>)
    ensures
        res == components_missing(components_view(components@)),
{
    let labels = component_label_list();
    let ghost views = components_view(components@);
    let mut at: usize = 0;
    assert(views.skip(0) =~= views);
    while at < components.len()
        invariant
            at <= components.len(),
            labels@ == component_labels(),
            views == components_view(components@),
            components_missing(views) == components_missing(views.skip(at as int)),
        decreases components.len() - at,
    {
        let component = &components[at];
        assert(views.skip(at as int)[0] == component@);
        assert(views.skip(at as int).drop_first() =~= views.skip(at + 1));
        if component.present {
            match first_missing(&component.claims, &labels) {
                Some(label) => { return Some(label); },
                None => {},
            }
        }
        at += 1;
    }
    None
}

/// Checks that a platform token lacks no mandatory claim.
pub fn check_platform_token(token: &PlatformToken) -> (res: Result<(), TokenError>)
    ensures
        match res {
            Ok(_) => platform_missing(token@) is None,
            Err(e) => platform_missing(token@) is Some && e@ == Fault::MissingMandatoryClaim(
                platform_missing(token@)->Some_0,
            ),
        },
{
    let labels: Vec<u32> = vec![
        CCA_PLAT_CHALLENGE,
        CCA_PLAT_INSTANCE_ID,
        CCA_PLAT_PROFILE,
        CCA_PLAT_SECURITY_LIFECYCLE,
        CCA_PLAT_IMPLEMENTATION_ID,
        CCA_PLAT_VERIFICATION_SERVICE,
        CCA_PLAT_CONFIGURATION,
        CCA_PLAT_HASH_ALGO_ID,
    ];
    assert(labels@ =~= platform_labels());
    match first_missing(&token.token_claims, &labels) {
        Some(label) => { return Err(TokenError::MissingMandatoryClaim(label)); },
        None => {},
    }
    if token.sw_component_claims.len() == 0 || !token.sw_component_claims[0].present {
        return Err(TokenError::MissingMandatoryClaim(CCA_PLAT_SW_COMPONENTS));
    }
    match first_missing_in_components(&token.sw_component_claims) {
        Some(label) => Err(TokenError::MissingMandatoryClaim(label)),
        None => Ok(()),
    }
}

/// Checks that a realm token lacks no mandatory claim.
pub fn check_realm_token(token: &RealmToken) -> (res: Result<(), TokenError>)
    ensures
        match res {
            Ok(_) => realm_missing(token@) is None,
            Err(e) => realm_missing(token@) is Some && e@ == Fault::MissingMandatoryClaim(
                realm_missing(token@)->Some_0,
            ),
        },
{
    let labels: Vec<u32> = vec![
        CCA_REALM_CHALLENGE,
        CCA_REALM_PROFILE,
        CCA_REALM_PERSONALIZATION_VALUE,
        CCA_REALM_HASH_ALGO_ID,
        CCA_REALM_PUB_KEY,
        CCA_REALM_INITIAL_MEASUREMENT,
        CCA_REALM_PUB_KEY_HASH_ALGO_ID,
    ];
    assert(labels@ =~= realm_labels());
    match first_missing(&token.token_claims, &labels) {
        Some(label) => { return Err(TokenError::MissingMandatoryClaim(label)); },
        None => {},
    }
    let ordinals: Vec<u32> = vec![0u32, 1u32, 2u32, 3u32];
    assert(ordinals@ =~= measurement_labels());
    match first_missing(&token.measurement_claims, &ordinals) {
        Some(_) => Err(TokenError::MissingMandatoryClaim(CCA_REALM_EXTENSIBLE_MEASUREMENTS)),
        None => Ok(()),
    }
}

/// Makes the platform token of a signed object from the decoded payload.
pub fn fill_platform_token(signed: SignedObject, payload: &CborValue) -> (res: Result<
    PlatformToken,
    TokenError,
>)
    ensures
        match res {
            Ok(token) => platform_token_of(signed@, payload@) == Ok::<PlatformTokenView, Fault>(
                token@,
            ),
            Err(e) => platform_token_of(signed@, payload@) == Err::<PlatformTokenView, Fault>(e@),
        },
        res is Ok ==> res->Ok_0@.complete() && res->Ok_0@.cose_sign1 == signed@,
{
    proof {
        if platform_token_of(signed@, payload@) is Ok {
            lemma_platform_token_complete(signed@, payload@);
        }
    }
    let entries = match payload {
        CborValue::Mapping(entries) => entries,
        _ => { return Err(TokenError::InvalidTokenFormat("platform claims map")); },
    };
    proof {
        lemma_mapping_model(*entries);
    }
    let mut token = PlatformToken::new();
    token.cose_sign1 = signed;
    let filled = match read_platform_entries(token, entries) {
        Ok(filled) => filled,
        Err(e) => { return Err(e); },
    };
    match check_platform_token(&filled) {
        Ok(_) => Ok(filled),
        Err(e) => Err(e),
    }
}

/// Makes the realm token of a signed object from the decoded payload.
pub fn fill_realm_token(signed: SignedObject, payload: &CborValue) -> (res: Result<
    RealmToken,
    TokenError,
>)
    ensures
        match res {
            Ok(token) => realm_token_of(signed@, payload@) == Ok::<RealmTokenView, Fault>(token@),
            Err(e) => realm_token_of(signed@, payload@) == Err::<RealmTokenView, Fault>(e@),
        },
        res is Ok ==> res->Ok_0@.complete() && res->Ok_0@.cose_sign1 == signed@,
{
    proof {
        if realm_token_of(signed@, payload@) is Ok {
            lemma_realm_token_complete(signed@, payload@);
        }
    }
    let entries = match payload {
        CborValue::Mapping(entries) => entries,
        _ => { return Err(TokenError::InvalidTokenFormat("realm claims map")); },
    };
    proof {
        lemma_mapping_model(*entries);
    }
    let mut token = RealmToken::new();
    token.cose_sign1 = signed;
    let filled = match read_realm_entries(token, entries) {
        Ok(filled) => filled,
        Err(e) => { return Err(e); },
    };
    match check_realm_token(&filled) {
        Ok(_) => Ok(filled),
        Err(e) => Err(e),
    }
}

/// Makes the platform token of a signed object: decodes the payload and reads its claims.
pub fn parse_platform_token(signed: SignedObject) -> (res: Result<PlatformToken, TokenError>)
    ensures
        match res {
            Ok(token) => platform_token(signed@) == Ok::<PlatformTokenView, Fault>(token@),
            Err(e) => platform_token(signed@) == Err::<PlatformTokenView, Fault>(e@),
        },
        res is Ok ==> res->Ok_0@.complete() && res->Ok_0@.cose_sign1 == signed@,
{
    let payload = match decode(signed.payload.as_slice()) {
        Ok(payload) => payload,
        Err(e) => { return Err(e); },
    };
    fill_platform_token(signed, &payload)
}

/// Makes the realm token of a signed object: decodes the payload and reads its claims.
pub fn parse_realm_token(signed: SignedObject) -> (res: Result<RealmToken, TokenError>)
    ensures
        match res {
            Ok(token) => realm_token(signed@) == Ok::<RealmTokenView, Fault>(token@),
            Err(e) => realm_token(signed@) == Err::<RealmTokenView, Fault>(e@),
        },
        res is Ok ==> res->Ok_0@.complete() && res->Ok_0@.cose_sign1 == signed@,
{
    let payload = match decode(signed.payload.as_slice()) {
        Ok(payload) => payload,
        Err(e) => { return Err(e); },
    };
    fill_realm_token(signed, &payload)
}

/// Decodes an attestation token and reads the claims of its two tokens.
pub fn parse_token(bytes: &[u8]) -> (res: Result<AttestationClaims, TokenError>)
    ensures
        match res {
            Ok(claims) => attestation(bytes@) == Ok::<AttestationView, Fault>(claims@),
            Err(e) => attestation(bytes@) == Err::<AttestationView, Fault>(e@),
        },
        res is Ok ==> res->Ok_0@.complete(),
{
    let (platform_signed, realm_signed) = match decode_envelope(bytes) {
        Ok(pair) => pair,
        Err(e) => { return Err(e); },
    };
    let platform = match parse_platform_token(platform_signed) {
        Ok(token) => token,
        Err(e) => { return Err(e); },
    };
    let realm = match parse_realm_token(realm_signed) {
        Ok(token) => token,
        Err(e) => { return Err(e); },
    };
    Ok(AttestationClaims::new(realm, platform))
}

/// What holds of the start of a walk, and of the state after each item's step that succeeds,
/// holds of the walk's result.
pub proof fn lemma_try_fold_keeps<S, T>(
    state: S,
    items: Seq<T>,
    step: spec_fn(S, T) -> Result<S, Fault>,
    holds: spec_fn(S) -> bool,
)
    requires
        holds(state),
        forall|s: S, i: int|
            0 <= i < items.len() && holds(s) && (#[trigger] step(s, items[i])) is Ok ==> holds(
                step(s, items[i])->Ok_0,
            ),
    ensures
        try_fold(state, items, step) is Ok ==> holds(try_fold(state, items, step)->Ok_0),
    decreases items.len(),
{
    if items.len() > 0 {
        let before = items.drop_last();
        assert forall|s: S, i: int|
            0 <= i < before.len() && holds(s) && (#[trigger] step(s, before[i])) is Ok implies holds(
            step(s, before[i])->Ok_0,
        ) by {
            assert(before[i] == items[i]);
        }
        lemma_try_fold_keeps(state, before, step, holds);
        assert(items.last() == items[items.len() - 1]);
    }
}

/// Reading an entry keeps the slots of the schema.
pub proof fn lemma_store_claim_keeps_shape(
    claims: Map<u32, ClaimView>,
    label: u32,
    value: Cbor,
    schema: Map<u32, ClaimView>,
)
    requires
        same_shape(claims, schema),
        store_claim(claims, label, value) is Ok,
    ensures
        same_shape(store_claim(claims, label, value)->Ok_0, schema),
{
}

/// Reading the entries of a map keeps the slots of the schema.
pub proof fn lemma_extract_claims_keeps_shape(
    claims: Map<u32, ClaimView>,
    entries: Seq<(Cbor, Cbor)>,
    schema: Map<u32, ClaimView>,
)
    requires
        same_shape(claims, schema),
        extract_claims(claims, entries) is Ok,
    ensures
        same_shape(extract_claims(claims, entries)->Ok_0, schema),
{
    let holds = |c: Map<u32, ClaimView>| same_shape(c, schema);
    assert forall|c: Map<u32, ClaimView>, e: (Cbor, Cbor)|
        holds(c) && (#[trigger] claim_stepper()(c, e)) is Ok implies holds(
        claim_stepper()(c, e)->Ok_0,
    ) by {
        match label_of(e.0) {
            Some(label) => lemma_store_claim_keeps_shape(c, label, e.1, schema),
            None => {},
        }
    }
    lemma_try_fold_keeps(claims, entries, claim_stepper(), holds);
}

/// The slots that the software components claim fills are 32 well-formed slots, of which the
/// first few, at least one, are in use.
pub proof fn lemma_components_of_wf(value: Cbor)
    requires
        components_of(value) is Ok,
    ensures
        components_of(value)->Ok_0.len() == MAX_SW_COMPONENT_COUNT,
        forall|i: int|
            0 <= i < MAX_SW_COMPONENT_COUNT ==> same_shape(
                (#[trigger] components_of(value)->Ok_0[i]).claims,
                sw_component_schema(),
            ),
        in_use(components_of(value)->Ok_0, value->Array_0.len() as int),
        1 <= value->Array_0.len() <= MAX_SW_COMPONENT_COUNT,
{
    let items = value->Array_0;
    let components = components_of(value)->Ok_0;
    assert forall|i: int| 0 <= i < MAX_SW_COMPONENT_COUNT implies same_shape(
        (#[trigger] components[i]).claims,
        sw_component_schema(),
    ) by {
        if i < items.len() {
            assert(component_of(items[i]) is Ok);
            lemma_extract_claims_keeps_shape(
                sw_component_schema(),
                items[i]->Mapping_0,
                sw_component_schema(),
            );
        }
    }
    assert forall|i: int| 0 <= i < components.len() implies ((#[trigger] components[i]).present
        <==> i < items.len()) by {
        if i < items.len() {
            assert(component_of(items[i]) is Ok);
        }
    }
}

/// Reading an entry of a platform token's payload keeps the token well-formed, and its signed
/// object as it was.
pub proof fn lemma_platform_step_keeps_wf(token: PlatformTokenView, entry: (Cbor, Cbor))
    requires
        token.wf(),
        platform_step(token, entry) is Ok,
    ensures
        platform_step(token, entry)->Ok_0.wf(),
        platform_step(token, entry)->Ok_0.cose_sign1 == token.cose_sign1,
{
    match label_of(entry.0) {
        None => {},
        Some(label) => {
            if label == CCA_PLAT_SW_COMPONENTS {
                lemma_components_of_wf(entry.1);
            } else {
                lemma_store_claim_keeps_shape(
                    token.token_claims,
                    label,
                    entry.1,
                    platform_schema(),
                );
                let count = choose|count: int| in_use(token.sw_component_claims, count);
                assert(in_use(platform_step(token, entry)->Ok_0.sw_component_claims, count));
            }
        },
    }
}

/// Reading an entry of a realm token's payload keeps the token well-formed, and its signed
/// object as it was.
pub proof fn lemma_realm_step_keeps_wf(token: RealmTokenView, entry: (Cbor, Cbor))
    requires
        token.wf(),
        realm_step(token, entry) is Ok,
    ensures
        realm_step(token, entry)->Ok_0.wf(),
        realm_step(token, entry)->Ok_0.cose_sign1 == token.cose_sign1,
{
    match label_of(entry.0) {
        None => {},
        Some(label) => {
            if label != CCA_REALM_EXTENSIBLE_MEASUREMENTS {
                lemma_store_claim_keeps_shape(token.token_claims, label, entry.1, realm_schema());
            }
        },
    }
}

/// Where none of `labels` is missing, the claim under each of them is not.
pub proof fn lemma_missing_in_none(claims: Map<u32, ClaimView>, labels: Seq<u32>, i: int)
    requires
        missing_in(claims, labels) is None,
        0 <= i < labels.len(),
    ensures
        !is_missing(claims, labels[i]),
    decreases labels.len(),
{
    if i > 0 {
        lemma_missing_in_none(claims, labels.drop_first(), i - 1);
    }
}

/// Where no component in use misses a claim, the component in slot `i` does not.
pub proof fn lemma_components_missing_none(components: Seq<SwComponentView>, i: int)
    requires
        components_missing(components) is None,
        0 <= i < components.len(),
        components[i].present,
    ensures
        missing_in(components[i].claims, component_labels()) is None,
    decreases components.len(),
{
    if i > 0 {
        lemma_components_missing_none(components.drop_first(), i - 1);
    }
}

/// A platform token's claims of which none is missing hold every mandatory claim.
pub proof fn lemma_platform_claims_present(claims: Map<u32, ClaimView>)
    requires
        same_shape(claims, platform_schema()),
        missing_in(claims, platform_labels()) is None,
    ensures
        all_present(claims),
{
    let labels = platform_labels();
    assert forall|i: int| 0 <= i < labels.len() implies !is_missing(claims, #[trigger] labels[i]) by {
        lemma_missing_in_none(claims, labels, i);
    }
    assert forall|label: u32| #[trigger]
        claims.contains_key(label) && claims[label].mandatory implies claims[label].present by {
        assert(platform_schema().contains_key(label));
        assert(label == labels[0] || label == labels[1] || label == labels[2] || label == labels[3]
            || label == labels[4] || label == labels[5] || label == labels[6] || label
            == labels[7]);
    }
}

/// A realm token's claims of which none is missing hold every mandatory claim.
pub proof fn lemma_realm_claims_present(claims: Map<u32, ClaimView>)
    requires
        same_shape(claims, realm_schema()),
        missing_in(claims, realm_labels()) is None,
    ensures
        all_present(claims),
{
    let labels = realm_labels();
    assert forall|i: int| 0 <= i < labels.len() implies !is_missing(claims, #[trigger] labels[i]) by {
        lemma_missing_in_none(claims, labels, i);
    }
    assert forall|label: u32| #[trigger]
        claims.contains_key(label) && claims[label].mandatory implies claims[label].present by {
        assert(realm_schema().contains_key(label));
        assert(label == labels[0] || label == labels[1] || label == labels[2] || label == labels[3]
            || label == labels[4] || label == labels[5] || label == labels[6]);
    }
}

/// A software component's claims of which none is missing hold every mandatory claim.
pub proof fn lemma_component_claims_present(claims: Map<u32, ClaimView>)
    requires
        same_shape(claims, sw_component_schema()),
        missing_in(claims, component_labels()) is None,
    ensures
        all_present(claims),
{
    let labels = component_labels();
    assert forall|i: int| 0 <= i < labels.len() implies !is_missing(claims, #[trigger] labels[i]) by {
        lemma_missing_in_none(claims, labels, i);
    }
    assert forall|label: u32| #[trigger]
        claims.contains_key(label) && claims[label].mandatory implies claims[label].present by {
        assert(sw_component_schema().contains_key(label));
        assert(label == labels[0] || label == labels[1] || label == labels[2] || label == labels[3]
            || label == labels[4]);
    }
}

/// The four measurements of which none is missing were all written.
pub proof fn lemma_measurement_claims_present(claims: Map<u32, ClaimView>)
    requires
        same_shape(claims, measurement_schema()),
        missing_in(claims, measurement_labels()) is None,
    ensures
        all_present(claims),
{
    let labels = measurement_labels();
    assert forall|i: int| 0 <= i < labels.len() implies !is_missing(claims, #[trigger] labels[i]) by {
        lemma_missing_in_none(claims, labels, i);
    }
    assert forall|label: u32| #[trigger]
        claims.contains_key(label) && claims[label].mandatory implies claims[label].present by {
        assert(measurement_schema().contains_key(label));
        assert(label == labels[0] || label == labels[1] || label == labels[2] || label
            == labels[3]);
    }
}

/// A platform token that was read from a payload lacks nothing, and keeps the signed object it
/// was read from.
///
/// Every mandatory claim of the token was written. Between 1 and 32 software components are in
/// use, from the first slot on without a gap, and every mandatory claim of each was written.
pub proof fn lemma_platform_token_complete(signed: SignedObjectView, payload: Cbor)
    requires
        platform_token_of(signed, payload) is Ok,
    ensures
        platform_token_of(signed, payload)->Ok_0.complete(),
        platform_token_of(signed, payload)->Ok_0.cose_sign1 == signed,
{
    let start = PlatformTokenView {
        cose_sign1: signed,
        token_claims: platform_schema(),
        sw_component_claims: unused_components(MAX_SW_COMPONENT_COUNT as nat),
    };
    let entries = payload->Mapping_0;
    let token = platform_token_of(signed, payload)->Ok_0;
    let holds = |t: PlatformTokenView| t.wf() && t.cose_sign1 == signed;
    lemma_empty_platform_token_wf(signed);
    assert forall|t: PlatformTokenView, e: (Cbor, Cbor)|
        holds(t) && (#[trigger] platform_stepper()(t, e)) is Ok implies holds(
        platform_stepper()(t, e)->Ok_0,
    ) by {
        lemma_platform_step_keeps_wf(t, e);
    }
    lemma_try_fold_keeps(start, entries, platform_stepper(), holds);
    assert(token.wf());
    lemma_platform_claims_present(token.token_claims);
    let count = choose|count: int| in_use(token.sw_component_claims, count);
    assert(token.sw_component_claims[0].present);
    assert(1 <= count && in_use(token.sw_component_claims, count));
    assert forall|i: int|
        0 <= i < token.sw_component_claims.len() && (
        #[trigger] token.sw_component_claims[i]).present implies all_present(
        token.sw_component_claims[i].claims,
    ) by {
        lemma_components_missing_none(token.sw_component_claims, i);
        lemma_component_claims_present(token.sw_component_claims[i].claims);
    }
}

/// A realm token that was read from a payload lacks nothing, and keeps the signed object it was
/// read from.
///
/// Every mandatory claim of the token was written, and its measurements are exactly four, under
/// the ordinals 0 to 3, each written.
pub proof fn lemma_realm_token_complete(signed: SignedObjectView, payload: Cbor)
    requires
        realm_token_of(signed, payload) is Ok,
    ensures
        realm_token_of(signed, payload)->Ok_0.complete(),
        realm_token_of(signed, payload)->Ok_0.cose_sign1 == signed,
        forall|ordinal: u32|
            realm_token_of(signed, payload)->Ok_0.measurement_claims.contains_key(ordinal)
                <==> ordinal < 4,
        forall|ordinal: u32|
            ordinal < 4 ==> (#[trigger] realm_token_of(
                signed,
                payload,
            )->Ok_0.measurement_claims[ordinal]).present,
{
    let start = RealmTokenView {
        cose_sign1: signed,
        token_claims: realm_schema(),
        measurement_claims: measurement_schema(),
    };
    let entries = payload->Mapping_0;
    let token = realm_token_of(signed, payload)->Ok_0;
    let holds = |t: RealmTokenView| t.wf() && t.cose_sign1 == signed;
    assert(start.wf());
    assert forall|t: RealmTokenView, e: (Cbor, Cbor)|
        holds(t) && (#[trigger] realm_stepper()(t, e)) is Ok implies holds(
        realm_stepper()(t, e)->Ok_0,
    ) by {
        lemma_realm_step_keeps_wf(t, e);
    }
    lemma_try_fold_keeps(start, entries, realm_stepper(), holds);
    assert(token.wf());
    lemma_realm_claims_present(token.token_claims);
    lemma_measurement_claims_present(token.measurement_claims);
    assert forall|ordinal: u32| ordinal < 4 implies (
    #[trigger] token.measurement_claims[ordinal]).present by {
        assert(measurement_schema().contains_key(ordinal));
        assert(token.measurement_claims.contains_key(ordinal));
    }
}

} // verus!
