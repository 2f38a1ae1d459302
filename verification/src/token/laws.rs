//! What holds of taking a token apart and of reading its payloads, whatever the token.

use vstd::prelude::*;
use crate::token::{
    CCA_PLAT_SW_COMPONENTS, CCA_PLAT_TOKEN, CCA_REALM_DELEGATED_TOKEN,
    CCA_REALM_EXTENSIBLE_MEASUREMENTS, ClaimView, lemma_empty_platform_token_wf,
    MAX_SW_COMPONENT_COUNT, measurement_schema, platform_schema, PlatformTokenView, realm_schema,
    RealmTokenView, same_shape, SignedObjectView, TAG_CCA_TOKEN, unused_components,
};
use crate::token::cbor::Cbor;
use crate::token::envelope::{find_entry, label_of, token_parts};
use crate::token::error::Fault;
use crate::token::extractor::{
    claim_step, claim_stepper, coerce, components_of, extract_claims, is_missing,
    lemma_extract_claims_keeps_shape, lemma_missing_in_none, lemma_platform_step_keeps_wf,
    lemma_realm_step_keeps_wf, lemma_store_claim_keeps_shape, lemma_try_fold_keeps,
    lemma_try_fold_next, lemma_try_fold_stops, measurement_labels, measurements_of, missing_in,
    platform_filled, platform_labels, platform_step, platform_stepper, platform_token_of,
    realm_filled, realm_labels, realm_step, realm_stepper, realm_token_of, try_fold, written,
};

verus! {

/// A walk does not notice an item whose step changes nothing.
///
/// `holds` is a property of the states that the walk passes through; the item at `at` leaves
/// every state with that property as it is.
pub proof fn lemma_try_fold_skips<S, T>(
    state: S,
    items: Seq<T>,
    step: spec_fn(S, T) -> Result<S, Fault>,
    holds: spec_fn(S) -> bool,
    at: int,
)
    requires
        0 <= at < items.len(),
        holds(state),
        forall|s: S, i: int|
            0 <= i < items.len() && holds(s) && (#[trigger] step(s, items[i])) is Ok ==> holds(
                step(s, items[i])->Ok_0,
            ),
        forall|s: S| holds(s) ==> #[trigger] step(s, items[at]) == Ok::<S, Fault>(s),
    ensures
        try_fold(state, items, step) == try_fold(state, items.remove(at), step),
    decreases items.len(),
{
    let before = items.drop_last();
    assert forall|s: S, i: int|
        0 <= i < before.len() && holds(s) && (#[trigger] step(s, before[i])) is Ok implies holds(
        step(s, before[i])->Ok_0,
    ) by {
        assert(before[i] == items[i]);
    }
    if at == items.len() - 1 {
        assert(items.remove(at) =~= before);
        lemma_try_fold_keeps(state, before, step, holds);
    } else {
        assert(items.remove(at).drop_last() =~= before.remove(at));
        assert(items.remove(at).last() == items.last());
        assert(before[at] == items[at]);
        lemma_try_fold_skips(state, before, step, holds, at);
    }
}

/// Whether an entry is one that a token with the slots of `schema` passes over: its key stands
/// for no label, or for a label that is neither in the schema nor `array_label`, the label of
/// the claim that holds an array.
pub open spec fn is_unknown(entry: (Cbor, Cbor), schema: Map<u32, ClaimView>, array_label: u32)
    -> bool {
    match label_of(entry.0) {
        None => true,
        Some(label) => !schema.contains_key(label) && label != array_label,
    }
}

/// Whether no entry stands under `label`.
pub open spec fn is_absent(entries: Seq<(Cbor, Cbor)>, label: u32) -> bool {
    forall|i: int| 0 <= i < entries.len() ==> label_of(#[trigger] entries[i].0) != Some(label)
}

/// An entry under an unknown label does not change what a platform token's payload makes:
/// with the entry and without it, the result is the same.
pub proof fn lemma_platform_ignores_unknown(
    signed: SignedObjectView,
    entries: Seq<(Cbor, Cbor)>,
    at: int,
)
    requires
        0 <= at < entries.len(),
        is_unknown(entries[at], platform_schema(), CCA_PLAT_SW_COMPONENTS),
    ensures
        platform_token_of(signed, Cbor::Mapping(entries)) == platform_token_of(
            signed,
            Cbor::Mapping(entries.remove(at)),
        ),
{
    let start = PlatformTokenView {
        cose_sign1: signed,
        token_claims: platform_schema(),
        sw_component_claims: unused_components(MAX_SW_COMPONENT_COUNT as nat),
    };
    let holds = |t: PlatformTokenView| t.wf();
    lemma_empty_platform_token_wf(signed);
    assert forall|t: PlatformTokenView, i: int|
        0 <= i < entries.len() && holds(t) && (#[trigger] platform_stepper()(t, entries[i]))
            is Ok implies holds(platform_stepper()(t, entries[i])->Ok_0) by {
        lemma_platform_step_keeps_wf(t, entries[i]);
    }
    assert forall|t: PlatformTokenView| holds(t) implies #[trigger] platform_stepper()(
        t,
        entries[at],
    ) == Ok::<PlatformTokenView, Fault>(t) by {
        assert(platform_step(t, entries[at]) == Ok::<PlatformTokenView, Fault>(t));
    }
    lemma_try_fold_skips(start, entries, platform_stepper(), holds, at);
}

/// An entry under an unknown label does not change what a realm token's payload makes: with
/// the entry and without it, the result is the same.
pub proof fn lemma_realm_ignores_unknown(
    signed: SignedObjectView,
    entries: Seq<(Cbor, Cbor)>,
    at: int,
)
    requires
        0 <= at < entries.len(),
        is_unknown(entries[at], realm_schema(), CCA_REALM_EXTENSIBLE_MEASUREMENTS),
    ensures
        realm_token_of(signed, Cbor::Mapping(entries)) == realm_token_of(
            signed,
            Cbor::Mapping(entries.remove(at)),
        ),
{
    let start = RealmTokenView {
        cose_sign1: signed,
        token_claims: realm_schema(),
        measurement_claims: measurement_schema(),
    };
    let holds = |t: RealmTokenView| t.wf();
    assert(start.wf());
    assert forall|t: RealmTokenView, i: int|
        0 <= i < entries.len() && holds(t) && (#[trigger] realm_stepper()(t, entries[i]))
            is Ok implies holds(realm_stepper()(t, entries[i])->Ok_0) by {
        lemma_realm_step_keeps_wf(t, entries[i]);
    }
    assert forall|t: RealmTokenView| holds(t) implies #[trigger] realm_stepper()(t, entries[at])
        == Ok::<RealmTokenView, Fault>(t) by {
        assert(realm_step(t, entries[at]) == Ok::<RealmTokenView, Fault>(t));
    }
    lemma_try_fold_skips(start, entries, realm_stepper(), holds, at);
}

/// An entry under a label without a slot does not change what the entries of a map make of a
/// map of claims: with the entry and without it, the result is the same.
pub proof fn lemma_claims_ignore_unknown(
    claims: Map<u32, ClaimView>,
    entries: Seq<(Cbor, Cbor)>,
    at: int,
)
    requires
        0 <= at < entries.len(),
        label_of(entries[at].0) matches Some(label) ==> !claims.contains_key(label),
    ensures
        extract_claims(claims, entries) == extract_claims(claims, entries.remove(at)),
{
    let holds = |c: Map<u32, ClaimView>| same_shape(c, claims);
    assert forall|c: Map<u32, ClaimView>, i: int|
        0 <= i < entries.len() && holds(c) && (#[trigger] claim_stepper()(c, entries[i]))
            is Ok implies holds(claim_stepper()(c, entries[i])->Ok_0) by {
        match label_of(entries[i].0) {
            Some(label) => lemma_store_claim_keeps_shape(c, label, entries[i].1, claims),
            None => {},
        }
    }
    assert forall|c: Map<u32, ClaimView>| holds(c) implies #[trigger] claim_stepper()(
        c,
        entries[at],
    ) == Ok::<Map<u32, ClaimView>, Fault>(c) by {
        assert(claim_step(c, entries[at]) == Ok::<Map<u32, ClaimView>, Fault>(c));
    }
    lemma_try_fold_skips(claims, entries, claim_stepper(), holds, at);
}

/// The only error of reading the entries of a map into a map of claims is the mismatch.
pub proof fn lemma_extract_claims_fault(claims: Map<u32, ClaimView>, entries: Seq<(Cbor, Cbor)>)
    requires
        extract_claims(claims, entries) is Err,
    ensures
        extract_claims(claims, entries) == Err::<Map<u32, ClaimView>, Fault>(
            Fault::ClaimDataMisMatchType,
        ),
    decreases entries.len(),
{
    if entries.len() > 0 {
        if extract_claims(claims, entries.drop_last()) is Err {
            lemma_extract_claims_fault(claims, entries.drop_last());
        }
    }
}

/// An entry whose label has a slot, and whose value is of another kind than the slot's, makes
/// the entries of the map a mismatch, wherever it stands.
pub proof fn lemma_mismatch_is_rejected(
    claims: Map<u32, ClaimView>,
    entries: Seq<(Cbor, Cbor)>,
    at: int,
)
    requires
        0 <= at < entries.len(),
        label_of(entries[at].0) is Some,
        claims.contains_key(label_of(entries[at].0)->Some_0),
        coerce(claims[label_of(entries[at].0)->Some_0].data, entries[at].1) is None,
    ensures
        extract_claims(claims, entries) == Err::<Map<u32, ClaimView>, Fault>(
            Fault::ClaimDataMisMatchType,
        ),
{
    let label = label_of(entries[at].0)->Some_0;
    lemma_try_fold_next(claims, entries, claim_stepper(), at);
    if extract_claims(claims, entries.take(at)) is Ok {
        let sofar = extract_claims(claims, entries.take(at))->Ok_0;
        lemma_extract_claims_keeps_shape(claims, entries.take(at), claims);
        assert(claims.contains_key(label));
        assert(sofar[label].data.same_kind(claims[label].data));
        assert(coerce(sofar[label].data, entries[at].1) is None);
        assert(claim_step(sofar, entries[at]) is Err);
    }
    lemma_try_fold_stops(claims, entries, claim_stepper(), at + 1);
    lemma_extract_claims_fault(claims, entries);
}

/// An entry of a platform token's payload whose label has a slot among the token's claims, and
/// whose value is of another kind than the slot's, makes the payload rejected; for a mismatch,
/// where no entry before it is rejected.
pub proof fn lemma_platform_mismatch_is_rejected(
    signed: SignedObjectView,
    entries: Seq<(Cbor, Cbor)>,
    at: int,
)
    requires
        0 <= at < entries.len(),
        label_of(entries[at].0) is Some,
        platform_schema().contains_key(label_of(entries[at].0)->Some_0),
        coerce(platform_schema()[label_of(entries[at].0)->Some_0].data, entries[at].1) is None,
    ensures
        platform_token_of(signed, Cbor::Mapping(entries)) is Err,
        platform_filled(signed, entries.take(at)) is Ok ==> platform_token_of(
            signed,
            Cbor::Mapping(entries),
        ) == Err::<PlatformTokenView, Fault>(Fault::ClaimDataMisMatchType),
{
    let start = PlatformTokenView {
        cose_sign1: signed,
        token_claims: platform_schema(),
        sw_component_claims: unused_components(MAX_SW_COMPONENT_COUNT as nat),
    };
    let label = label_of(entries[at].0)->Some_0;
    let before = entries.take(at);
    lemma_try_fold_next(start, entries, platform_stepper(), at);
    if platform_filled(signed, before) is Ok {
        let sofar = platform_filled(signed, before)->Ok_0;
        let holds = |t: PlatformTokenView| t.wf();
        lemma_empty_platform_token_wf(signed);
        assert forall|t: PlatformTokenView, i: int|
            0 <= i < before.len() && holds(t) && (#[trigger] platform_stepper()(t, before[i]))
                is Ok implies holds(platform_stepper()(t, before[i])->Ok_0) by {
            lemma_platform_step_keeps_wf(t, before[i]);
        }
        lemma_try_fold_keeps(start, before, platform_stepper(), holds);
        assert(platform_schema().contains_key(label));
        assert(sofar.token_claims[label].data.same_kind(platform_schema()[label].data));
        assert(coerce(sofar.token_claims[label].data, entries[at].1) is None);
        assert(platform_step(sofar, entries[at]) == Err::<PlatformTokenView, Fault>(
            Fault::ClaimDataMisMatchType,
        ));
    }
    lemma_try_fold_stops(start, entries, platform_stepper(), at + 1);
}

/// An entry of a realm token's payload whose label has a slot among the token's claims, and
/// whose value is of another kind than the slot's, makes the payload rejected; for a mismatch,
/// where no entry before it is rejected.
pub proof fn lemma_realm_mismatch_is_rejected(
    signed: SignedObjectView,
    entries: Seq<(Cbor, Cbor)>,
    at: int,
)
    requires
        0 <= at < entries.len(),
        label_of(entries[at].0) is Some,
        realm_schema().contains_key(label_of(entries[at].0)->Some_0),
        coerce(realm_schema()[label_of(entries[at].0)->Some_0].data, entries[at].1) is None,
    ensures
        realm_token_of(signed, Cbor::Mapping(entries)) is Err,
        realm_filled(signed, entries.take(at)) is Ok ==> realm_token_of(
            signed,
            Cbor::Mapping(entries),
        ) == Err::<RealmTokenView, Fault>(Fault::ClaimDataMisMatchType),
{
    let start = RealmTokenView {
        cose_sign1: signed,
        token_claims: realm_schema(),
        measurement_claims: measurement_schema(),
    };
    let label = label_of(entries[at].0)->Some_0;
    let before = entries.take(at);
    lemma_try_fold_next(start, entries, realm_stepper(), at);
    if realm_filled(signed, before) is Ok {
        let sofar = realm_filled(signed, before)->Ok_0;
        let holds = |t: RealmTokenView| t.wf();
        assert(start.wf());
        assert forall|t: RealmTokenView, i: int|
            0 <= i < before.len() && holds(t) && (#[trigger] realm_stepper()(t, before[i]))
                is Ok implies holds(realm_stepper()(t, before[i])->Ok_0) by {
            lemma_realm_step_keeps_wf(t, before[i]);
        }
        lemma_try_fold_keeps(start, before, realm_stepper(), holds);
        assert(realm_schema().contains_key(label));
        assert(sofar.token_claims[label].data.same_kind(realm_schema()[label].data));
        assert(coerce(sofar.token_claims[label].data, entries[at].1) is None);
        assert(realm_step(sofar, entries[at]) == Err::<RealmTokenView, Fault>(
            Fault::ClaimDataMisMatchType,
        ));
    }
    lemma_try_fold_stops(start, entries, realm_stepper(), at + 1);
}

/// The first missing claim among `labels`, where there is one, is one of `labels` and is
/// missing.
pub proof fn lemma_missing_in_some(claims: Map<u32, ClaimView>, labels: Seq<u32>)
    requires
        missing_in(claims, labels) is Some,
    ensures
        labels.contains(missing_in(claims, labels)->Some_0),
        is_missing(claims, missing_in(claims, labels)->Some_0),
    decreases labels.len(),
{
    if labels.len() > 0 && !is_missing(claims, labels[0]) {
        lemma_missing_in_some(claims, labels.drop_first());
        let found = missing_in(claims, labels)->Some_0;
        let i = choose|i: int| 0 <= i < labels.drop_first().len() && labels.drop_first()[i] == found;
        assert(labels[i + 1] == found);
    } else {
        assert(labels[0] == missing_in(claims, labels)->Some_0);
    }
}

/// A missing claim among `labels` is found: there is a first one of them.
pub proof fn lemma_missing_is_found(claims: Map<u32, ClaimView>, labels: Seq<u32>, i: int)
    requires
        0 <= i < labels.len(),
        is_missing(claims, labels[i]),
    ensures
        missing_in(claims, labels) is Some,
{
    if missing_in(claims, labels) is None {
        lemma_missing_in_none(claims, labels, i);
    }
}

/// A slot of a platform token's claims under whose label no entry of the payload stands is
/// after the reading as empty as before it.
pub proof fn lemma_platform_absent_label_keeps_slot(
    signed: SignedObjectView,
    entries: Seq<(Cbor, Cbor)>,
    label: u32,
)
    requires
        platform_schema().contains_key(label),
        is_absent(entries, label),
        platform_filled(signed, entries) is Ok,
    ensures
        platform_filled(signed, entries)->Ok_0.token_claims.contains_key(label),
        platform_filled(signed, entries)->Ok_0.token_claims[label] == platform_schema()[label],
        !platform_filled(signed, entries)->Ok_0.token_claims[label].present,
{
    let start = PlatformTokenView {
        cose_sign1: signed,
        token_claims: platform_schema(),
        sw_component_claims: unused_components(MAX_SW_COMPONENT_COUNT as nat),
    };
    let holds = |t: PlatformTokenView|
        t.token_claims.contains_key(label) && t.token_claims[label] == platform_schema()[label];
    assert forall|t: PlatformTokenView, i: int|
        0 <= i < entries.len() && holds(t) && (#[trigger] platform_stepper()(t, entries[i]))
            is Ok implies holds(platform_stepper()(t, entries[i])->Ok_0) by {
        assert(label_of(entries[i].0) != Some(label));
    }
    lemma_try_fold_keeps(start, entries, platform_stepper(), holds);
}

/// A slot of a realm token's claims under whose label no entry of the payload stands is after
/// the reading as empty as before it.
pub proof fn lemma_realm_absent_label_keeps_slot(
    signed: SignedObjectView,
    entries: Seq<(Cbor, Cbor)>,
    label: u32,
)
    requires
        realm_schema().contains_key(label),
        is_absent(entries, label),
        realm_filled(signed, entries) is Ok,
    ensures
        realm_filled(signed, entries)->Ok_0.token_claims.contains_key(label),
        realm_filled(signed, entries)->Ok_0.token_claims[label] == realm_schema()[label],
        !realm_filled(signed, entries)->Ok_0.token_claims[label].present,
{
    let start = RealmTokenView {
        cose_sign1: signed,
        token_claims: realm_schema(),
        measurement_claims: measurement_schema(),
    };
    let holds = |t: RealmTokenView|
        t.token_claims.contains_key(label) && t.token_claims[label] == realm_schema()[label];
    assert forall|t: RealmTokenView, i: int|
        0 <= i < entries.len() && holds(t) && (#[trigger] realm_stepper()(t, entries[i]))
            is Ok implies holds(realm_stepper()(t, entries[i])->Ok_0) by {
        assert(label_of(entries[i].0) != Some(label));
    }
    lemma_try_fold_keeps(start, entries, realm_stepper(), holds);
}

/// A platform token's payload in which no entry stands under `label`, the label of a mandatory
/// claim of the token, is rejected for a missing mandatory claim, where no entry is rejected.
///
/// The label that the error names is that of a mandatory claim that was not written, and it is
/// `label` where every other mandatory claim of the token was written.
pub proof fn lemma_platform_absent_claim_is_reported(
    signed: SignedObjectView,
    entries: Seq<(Cbor, Cbor)>,
    label: u32,
)
    requires
        platform_schema().contains_key(label),
        platform_schema()[label].mandatory,
        is_absent(entries, label),
        platform_filled(signed, entries) is Ok,
    ensures
        platform_token_of(signed, Cbor::Mapping(entries)) is Err,
        platform_token_of(signed, Cbor::Mapping(entries))->Err_0 is MissingMandatoryClaim,
        is_missing(
            platform_filled(signed, entries)->Ok_0.token_claims,
            platform_token_of(signed, Cbor::Mapping(entries))->Err_0->MissingMandatoryClaim_0,
        ),
        (forall|other: u32|
            other != label ==> !is_missing(
                platform_filled(signed, entries)->Ok_0.token_claims,
                other,
            )) ==> platform_token_of(signed, Cbor::Mapping(entries))->Err_0
            == Fault::MissingMandatoryClaim(label),
{
    let token = platform_filled(signed, entries)->Ok_0;
    lemma_platform_absent_label_keeps_slot(signed, entries, label);
    assert(is_missing(token.token_claims, label));
    let labels = platform_labels();
    assert(label == labels[0] || label == labels[1] || label == labels[2] || label == labels[3]
        || label == labels[4] || label == labels[5] || label == labels[6] || label == labels[7]);
    let at = choose|at: int| 0 <= at < labels.len() && labels[at] == label;
    lemma_missing_is_found(token.token_claims, labels, at);
    lemma_missing_in_some(token.token_claims, labels);
}

/// A realm token's payload in which no entry stands under `label`, the label of a mandatory
/// claim of the token, is rejected for a missing mandatory claim, where no entry is rejected.
///
/// The label that the error names is that of a mandatory claim that was not written, and it is
/// `label` where every other mandatory claim of the token was written.
pub proof fn lemma_realm_absent_claim_is_reported(
    signed: SignedObjectView,
    entries: Seq<(Cbor, Cbor)>,
    label: u32,
)
    requires
        realm_schema().contains_key(label),
        realm_schema()[label].mandatory,
        is_absent(entries, label),
        realm_filled(signed, entries) is Ok,
    ensures
        realm_token_of(signed, Cbor::Mapping(entries)) is Err,
        realm_token_of(signed, Cbor::Mapping(entries))->Err_0 is MissingMandatoryClaim,
        is_missing(
            realm_filled(signed, entries)->Ok_0.token_claims,
            realm_token_of(signed, Cbor::Mapping(entries))->Err_0->MissingMandatoryClaim_0,
        ),
        (forall|other: u32|
            other != label ==> !is_missing(realm_filled(signed, entries)->Ok_0.token_claims, other))
            ==> realm_token_of(signed, Cbor::Mapping(entries))->Err_0
            == Fault::MissingMandatoryClaim(label),
{
    let token = realm_filled(signed, entries)->Ok_0;
    lemma_realm_absent_label_keeps_slot(signed, entries, label);
    assert(is_missing(token.token_claims, label));
    let labels = realm_labels();
    assert(label == labels[0] || label == labels[1] || label == labels[2] || label == labels[3]
        || label == labels[4] || label == labels[5] || label == labels[6]);
    let at = choose|at: int| 0 <= at < labels.len() && labels[at] == label;
    lemma_missing_is_found(token.token_claims, labels, at);
    lemma_missing_in_some(token.token_claims, labels);
}

/// A platform token's payload without the software components claim is rejected for that
/// claim, where no entry is rejected and none of the token's own claims is missing.
pub proof fn lemma_platform_absent_components_is_reported(
    signed: SignedObjectView,
    entries: Seq<(Cbor, Cbor)>,
)
    requires
        is_absent(entries, CCA_PLAT_SW_COMPONENTS),
        platform_filled(signed, entries) is Ok,
        missing_in(platform_filled(signed, entries)->Ok_0.token_claims, platform_labels()) is None,
    ensures
        platform_token_of(signed, Cbor::Mapping(entries)) == Err::<PlatformTokenView, Fault>(
            Fault::MissingMandatoryClaim(CCA_PLAT_SW_COMPONENTS),
        ),
{
    let start = PlatformTokenView {
        cose_sign1: signed,
        token_claims: platform_schema(),
        sw_component_claims: unused_components(MAX_SW_COMPONENT_COUNT as nat),
    };
    let holds = |t: PlatformTokenView|
        t.sw_component_claims == unused_components(MAX_SW_COMPONENT_COUNT as nat);
    assert forall|t: PlatformTokenView, i: int|
        0 <= i < entries.len() && holds(t) && (#[trigger] platform_stepper()(t, entries[i]))
            is Ok implies holds(platform_stepper()(t, entries[i])->Ok_0) by {
        assert(label_of(entries[i].0) != Some(CCA_PLAT_SW_COMPONENTS));
    }
    lemma_try_fold_keeps(start, entries, platform_stepper(), holds);
}

/// A realm token's payload without the extensible measurements claim is rejected for that
/// claim, where no entry is rejected and none of the token's own claims is missing.
pub proof fn lemma_realm_absent_measurements_is_reported(
    signed: SignedObjectView,
    entries: Seq<(Cbor, Cbor)>,
)
    requires
        is_absent(entries, CCA_REALM_EXTENSIBLE_MEASUREMENTS),
        realm_filled(signed, entries) is Ok,
        missing_in(realm_filled(signed, entries)->Ok_0.token_claims, realm_labels()) is None,
    ensures
        realm_token_of(signed, Cbor::Mapping(entries)) == Err::<RealmTokenView, Fault>(
            Fault::MissingMandatoryClaim(CCA_REALM_EXTENSIBLE_MEASUREMENTS),
        ),
{
    let start = RealmTokenView {
        cose_sign1: signed,
        token_claims: realm_schema(),
        measurement_claims: measurement_schema(),
    };
    let token = realm_filled(signed, entries)->Ok_0;
    let holds = |t: RealmTokenView| t.measurement_claims == measurement_schema();
    assert forall|t: RealmTokenView, i: int|
        0 <= i < entries.len() && holds(t) && (#[trigger] realm_stepper()(t, entries[i]))
            is Ok implies holds(realm_stepper()(t, entries[i])->Ok_0) by {
        assert(label_of(entries[i].0) != Some(CCA_REALM_EXTENSIBLE_MEASUREMENTS));
    }
    lemma_try_fold_keeps(start, entries, realm_stepper(), holds);
    assert(measurement_schema().contains_key(0u32));
    assert(is_missing(token.measurement_claims, measurement_labels()[0]));
    lemma_missing_is_found(token.measurement_claims, measurement_labels(), 0);
}

/// What an item's step settles, and no later step unsettles, holds of the walk's result.
///
/// `holds` is a property of the states that the walk passes through. The step of the item at
/// `at` takes every state with that property to one that is `settled`, and the steps of the
/// items behind it keep a state `settled`.
pub proof fn lemma_try_fold_settles<S, T>(
    state: S,
    items: Seq<T>,
    step: spec_fn(S, T) -> Result<S, Fault>,
    holds: spec_fn(S) -> bool,
    settled: spec_fn(S) -> bool,
    at: int,
)
    requires
        0 <= at < items.len(),
        try_fold(state, items, step) is Ok,
        holds(state),
        forall|s: S, i: int|
            0 <= i < items.len() && holds(s) && (#[trigger] step(s, items[i])) is Ok ==> holds(
                step(s, items[i])->Ok_0,
            ),
        forall|s: S| holds(s) && (#[trigger] step(s, items[at])) is Ok ==> settled(
            step(s, items[at])->Ok_0,
        ),
        forall|s: S, i: int|
            at < i < items.len() && settled(s) && (#[trigger] step(s, items[i])) is Ok ==> settled(
                step(s, items[i])->Ok_0,
            ),
    ensures
        settled(try_fold(state, items, step)->Ok_0),
    decreases items.len(),
{
    let before = items.drop_last();
    assert forall|s: S, i: int|
        0 <= i < before.len() && holds(s) && (#[trigger] step(s, before[i])) is Ok implies holds(
        step(s, before[i])->Ok_0,
    ) by {
        assert(before[i] == items[i]);
    }
    assert(items.last() == items[items.len() - 1]);
    if at == items.len() - 1 {
        lemma_try_fold_keeps(state, before, step, holds);
    } else {
        assert(before[at] == items[at]);
        assert forall|s: S, i: int|
            at < i < before.len() && settled(s) && (#[trigger] step(s, before[i]))
                is Ok implies settled(step(s, before[i])->Ok_0) by {
            assert(before[i] == items[i]);
        }
        lemma_try_fold_settles(state, before, step, holds, settled, at);
    }
}

/// Whether the entry at `at` is the last one that stands under `label`.
pub open spec fn is_last_under(entries: Seq<(Cbor, Cbor)>, at: int, label: u32) -> bool {
    &&& 0 <= at < entries.len()
    &&& label_of(entries[at].0) == Some(label)
    &&& forall|i: int| at < i < entries.len() ==> label_of(#[trigger] entries[i].0) != Some(label)
}

/// What a slot holds after the reading depends on the kind of what it held before only.
pub proof fn lemma_coerce_by_kind(first: ClaimView, second: ClaimView, value: Cbor)
    requires
        first.data.same_kind(second.data),
    ensures
        coerce(first.data, value) == coerce(second.data, value),
{
}

/// A claim of a platform token holds what the last entry under its label gave it: the slot of
/// the schema, written with that entry's value.
pub proof fn lemma_platform_last_entry_wins(
    signed: SignedObjectView,
    entries: Seq<(Cbor, Cbor)>,
    at: int,
    label: u32,
)
    requires
        platform_schema().contains_key(label),
        is_last_under(entries, at, label),
        platform_filled(signed, entries) is Ok,
    ensures
        coerce(platform_schema()[label].data, entries[at].1) is Some,
        platform_filled(signed, entries)->Ok_0.token_claims[label] == written(
            platform_schema()[label],
            coerce(platform_schema()[label].data, entries[at].1)->Some_0,
        ),
{
    let start = PlatformTokenView {
        cose_sign1: signed,
        token_claims: platform_schema(),
        sw_component_claims: unused_components(MAX_SW_COMPONENT_COUNT as nat),
    };
    let slot = platform_schema()[label];
    let holds = |t: PlatformTokenView| t.wf();
    let settled = |t: PlatformTokenView|
        coerce(slot.data, entries[at].1) is Some && t.token_claims.contains_key(label)
            && t.token_claims[label] == written(slot, coerce(slot.data, entries[at].1)->Some_0);
    lemma_empty_platform_token_wf(signed);
    assert forall|t: PlatformTokenView, i: int|
        0 <= i < entries.len() && holds(t) && (#[trigger] platform_stepper()(t, entries[i]))
            is Ok implies holds(platform_stepper()(t, entries[i])->Ok_0) by {
        lemma_platform_step_keeps_wf(t, entries[i]);
    }
    assert forall|t: PlatformTokenView|
        holds(t) && (#[trigger] platform_stepper()(t, entries[at])) is Ok implies settled(
        platform_stepper()(t, entries[at])->Ok_0,
    ) by {
        assert(platform_schema().contains_key(label));
        lemma_coerce_by_kind(t.token_claims[label], slot, entries[at].1);
    }
    assert forall|t: PlatformTokenView, i: int|
        at < i < entries.len() && settled(t) && (#[trigger] platform_stepper()(t, entries[i]))
            is Ok implies settled(platform_stepper()(t, entries[i])->Ok_0) by {
        assert(label_of(entries[i].0) != Some(label));
    }
    lemma_try_fold_settles(start, entries, platform_stepper(), holds, settled, at);
}

/// A claim of a realm token holds what the last entry under its label gave it: the slot of the
/// schema, written with that entry's value.
pub proof fn lemma_realm_last_entry_wins(
    signed: SignedObjectView,
    entries: Seq<(Cbor, Cbor)>,
    at: int,
    label: u32,
)
    requires
        realm_schema().contains_key(label),
        is_last_under(entries, at, label),
        realm_filled(signed, entries) is Ok,
    ensures
        coerce(realm_schema()[label].data, entries[at].1) is Some,
        realm_filled(signed, entries)->Ok_0.token_claims[label] == written(
            realm_schema()[label],
            coerce(realm_schema()[label].data, entries[at].1)->Some_0,
        ),
{
    let start = RealmTokenView {
        cose_sign1: signed,
        token_claims: realm_schema(),
        measurement_claims: measurement_schema(),
    };
    let slot = realm_schema()[label];
    let holds = |t: RealmTokenView| t.wf();
    let settled = |t: RealmTokenView|
        coerce(slot.data, entries[at].1) is Some && t.token_claims.contains_key(label)
            && t.token_claims[label] == written(slot, coerce(slot.data, entries[at].1)->Some_0);
    assert(start.wf());
    assert forall|t: RealmTokenView, i: int|
        0 <= i < entries.len() && holds(t) && (#[trigger] realm_stepper()(t, entries[i]))
            is Ok implies holds(realm_stepper()(t, entries[i])->Ok_0) by {
        lemma_realm_step_keeps_wf(t, entries[i]);
    }
    assert forall|t: RealmTokenView|
        holds(t) && (#[trigger] realm_stepper()(t, entries[at])) is Ok implies settled(
        realm_stepper()(t, entries[at])->Ok_0,
    ) by {
        assert(realm_schema().contains_key(label));
        lemma_coerce_by_kind(t.token_claims[label], slot, entries[at].1);
    }
    assert forall|t: RealmTokenView, i: int|
        at < i < entries.len() && settled(t) && (#[trigger] realm_stepper()(t, entries[i]))
            is Ok implies settled(realm_stepper()(t, entries[i])->Ok_0) by {
        assert(label_of(entries[i].0) != Some(label));
    }
    lemma_try_fold_settles(start, entries, realm_stepper(), holds, settled, at);
}

/// The software components of a platform token are those of the last entry under their label.
pub proof fn lemma_platform_last_components_win(
    signed: SignedObjectView,
    entries: Seq<(Cbor, Cbor)>,
    at: int,
)
    requires
        is_last_under(entries, at, CCA_PLAT_SW_COMPONENTS),
        platform_filled(signed, entries) is Ok,
    ensures
        components_of(entries[at].1) is Ok,
        platform_filled(signed, entries)->Ok_0.sw_component_claims == components_of(
            entries[at].1,
        )->Ok_0,
{
    let start = PlatformTokenView {
        cose_sign1: signed,
        token_claims: platform_schema(),
        sw_component_claims: unused_components(MAX_SW_COMPONENT_COUNT as nat),
    };
    let holds = |t: PlatformTokenView| true;
    let settled = |t: PlatformTokenView|
        components_of(entries[at].1) is Ok && t.sw_component_claims == components_of(
            entries[at].1,
        )->Ok_0;
    assert forall|t: PlatformTokenView, i: int|
        at < i < entries.len() && settled(t) && (#[trigger] platform_stepper()(t, entries[i]))
            is Ok implies settled(platform_stepper()(t, entries[i])->Ok_0) by {
        assert(label_of(entries[i].0) != Some(CCA_PLAT_SW_COMPONENTS));
    }
    lemma_try_fold_settles(start, entries, platform_stepper(), holds, settled, at);
}

/// The extensible measurements of a realm token are those of the last entry under their label.
pub proof fn lemma_realm_last_measurements_win(
    signed: SignedObjectView,
    entries: Seq<(Cbor, Cbor)>,
    at: int,
)
    requires
        is_last_under(entries, at, CCA_REALM_EXTENSIBLE_MEASUREMENTS),
        realm_filled(signed, entries) is Ok,
    ensures
        measurements_of(entries[at].1) is Ok,
        realm_filled(signed, entries)->Ok_0.measurement_claims == measurements_of(
            entries[at].1,
        )->Ok_0,
{
    let start = RealmTokenView {
        cose_sign1: signed,
        token_claims: realm_schema(),
        measurement_claims: measurement_schema(),
    };
    let holds = |t: RealmTokenView| true;
    let settled = |t: RealmTokenView|
        measurements_of(entries[at].1) is Ok && t.measurement_claims == measurements_of(
            entries[at].1,
        )->Ok_0;
    assert forall|t: RealmTokenView, i: int|
        at < i < entries.len() && settled(t) && (#[trigger] realm_stepper()(t, entries[i]))
            is Ok implies settled(realm_stepper()(t, entries[i])->Ok_0) by {
        assert(label_of(entries[i].0) != Some(CCA_REALM_EXTENSIBLE_MEASUREMENTS));
    }
    lemma_try_fold_settles(start, entries, realm_stepper(), holds, settled, at);
}

/// An entry under another label does not change what is found under `label`.
pub proof fn lemma_find_entry_skips(entries: Seq<(Cbor, Cbor)>, label: u32, at: int)
    requires
        0 <= at < entries.len(),
        label_of(entries[at].0) != Some(label),
    ensures
        find_entry(entries, label) == find_entry(entries.remove(at), label),
    decreases entries.len(),
{
    if at == 0 {
        assert(entries.remove(0) =~= entries.drop_first());
    } else {
        assert(entries.remove(at)[0] == entries[0]);
        assert(entries.remove(at).drop_first() =~= entries.drop_first().remove(at - 1));
        if label_of(entries[0].0) != Some(label) {
            lemma_find_entry_skips(entries.drop_first(), label, at - 1);
        }
    }
}

/// An entry of an attestation token's map under another key than those of the two tokens does
/// not change what the token is taken apart into.
pub proof fn lemma_envelope_ignores_other_keys(entries: Seq<(Cbor, Cbor)>, at: int)
    requires
        0 <= at < entries.len(),
        label_of(entries[at].0) != Some(CCA_PLAT_TOKEN),
        label_of(entries[at].0) != Some(CCA_REALM_DELEGATED_TOKEN),
    ensures
        token_parts(Cbor::Tag(TAG_CCA_TOKEN, Box::new(Cbor::Mapping(entries)))) == token_parts(
            Cbor::Tag(TAG_CCA_TOKEN, Box::new(Cbor::Mapping(entries.remove(at)))),
        ),
{
    lemma_find_entry_skips(entries, CCA_PLAT_TOKEN, at);
    lemma_find_entry_skips(entries, CCA_REALM_DELEGATED_TOKEN, at);
}

} // verus!
