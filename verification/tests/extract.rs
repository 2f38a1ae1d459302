use rust_rsi::token::cbor::CborValue;
use rust_rsi::token::error::TokenError;
use rust_rsi::token::extractor::{
    fill_platform_token, fill_realm_token, read_claims, read_components, read_measurements, store,
};
use rust_rsi::token::parser::{PlatClaims, PlatSwComponent, RealmClaims};
use rust_rsi::token::{ClaimData, SignedObject, SwComponent};

fn number(value: i128) -> CborValue {
    CborValue::Integer(value)
}

fn bytes(content: &[u8]) -> CborValue {
    CborValue::Bytes(content.to_vec())
}

fn text(content: &str) -> CborValue {
    CborValue::Text(content.to_string())
}

fn component(kind: &str) -> CborValue {
    CborValue::Mapping(vec![
        (number(1), text(kind)),
        (number(2), bytes(&[0x11; 32])),
        (number(4), text("1.0.0")),
        (number(5), bytes(&[0x22; 32])),
    ])
}

fn components(count: usize) -> CborValue {
    let mut items = Vec::new();
    for index in 0..count {
        items.push(component(&format!("component {}", index)));
    }
    CborValue::Array(items)
}

fn platform_entries() -> Vec<(CborValue, CborValue)> {
    vec![
        (number(10), bytes(&[0xaa; 32])),
        (number(256), bytes(&[0x01; 33])),
        (number(265), text("tag:arm.com,2023:cca_platform#1.0.0")),
        (number(2395), number(12288)),
        (number(2396), bytes(&[0x02; 32])),
        (number(2399), components(2)),
        (number(2400), text("https://veraison.example")),
        (number(2401), bytes(&[0xcf, 0xcf])),
        (number(2402), text("sha-256")),
    ]
}

fn realm_entries() -> Vec<(CborValue, CborValue)> {
    vec![
        (number(10), bytes(&[0xbb; 64])),
        (number(265), text("tag:arm.com,2023:realm#1.0.0")),
        (number(44235), bytes(&[0x03; 64])),
        (number(44236), text("sha-256")),
        (number(44237), bytes(&[0x04; 65])),
        (number(44238), bytes(&[0x05; 32])),
        (
            number(44239),
            CborValue::Array(vec![
                bytes(&[0x60; 32]),
                bytes(&[0x61; 32]),
                bytes(&[0x62; 32]),
                bytes(&[0x63; 32]),
            ]),
        ),
        (number(44240), text("sha-256")),
    ]
}

fn without(entries: Vec<(CborValue, CborValue)>, label: i128) -> Vec<(CborValue, CborValue)> {
    entries.into_iter().filter(|entry| entry.0 != number(label)).collect()
}

fn replaced(
    entries: Vec<(CborValue, CborValue)>,
    label: i128,
    value: CborValue,
) -> Vec<(CborValue, CborValue)> {
    let mut out = without(entries, label);
    out.push((number(label), value));
    out
}

fn used_slots(slots: &[SwComponent]) -> usize {
    slots.iter().filter(|slot| slot.present).count()
}

#[test]
fn platform_payload_fills_every_claim() {
    let token =
        fill_platform_token(SignedObject::new(), &CborValue::Mapping(platform_entries())).unwrap();
    assert_eq!(token.token_claims.len(), 8);
    for claim in token.token_claims.values() {
        assert!(claim.present);
    }
    let challenge = token.token_claims.get(&10).unwrap();
    assert!(matches!(&challenge.data, ClaimData::Bstr(b) if b == &vec![0xaa; 32]));
    let lifecycle = token.token_claims.get(&2395).unwrap();
    assert!(matches!(lifecycle.data, ClaimData::Int64(12288)));
    let algo = token.token_claims.get(&2402).unwrap();
    assert!(matches!(&algo.data, ClaimData::Text(t) if t == "sha-256"));
    assert_eq!(algo.title, "Platform hash algo");
    assert!(algo.mandatory);
}

#[test]
fn every_mandatory_claim_is_present_after_a_parse() {
    let platform =
        fill_platform_token(SignedObject::new(), &CborValue::Mapping(platform_entries())).unwrap();
    for claim in platform.token_claims.values() {
        assert!(!claim.mandatory || claim.present);
    }
    for slot in platform.sw_component_claims.iter().filter(|slot| slot.present) {
        for claim in slot.claims.values() {
            assert!(!claim.mandatory || claim.present);
        }
    }
    let realm = fill_realm_token(SignedObject::new(), &CborValue::Mapping(realm_entries())).unwrap();
    for claim in realm.token_claims.values() {
        assert!(!claim.mandatory || claim.present);
    }
    for claim in realm.measurement_claims.values() {
        assert!(claim.present);
    }
}

#[test]
fn realm_measurements_are_four_at_ordinals_zero_to_three() {
    let realm = fill_realm_token(SignedObject::new(), &CborValue::Mapping(realm_entries())).unwrap();
    assert_eq!(realm.measurement_claims.len(), 4);
    for ordinal in 0u32..4 {
        let claim = realm.measurement_claims.get(&ordinal).unwrap();
        assert!(claim.present);
        let expected = vec![0x60 + ordinal as u8; 32];
        assert!(matches!(&claim.data, ClaimData::Bstr(b) if b == &expected));
    }
}

#[test]
fn components_fill_the_slots_from_the_first_without_a_gap() {
    let token =
        fill_platform_token(SignedObject::new(), &CborValue::Mapping(platform_entries())).unwrap();
    assert_eq!(token.sw_component_claims.len(), 32);
    for (index, slot) in token.sw_component_claims.iter().enumerate() {
        assert_eq!(slot.present, index < 2);
        assert_eq!(slot.claims.len(), 5);
    }
    let second = &token.sw_component_claims[1];
    let kind = second.claims.get(&1).unwrap();
    assert!(matches!(&kind.data, ClaimData::Text(t) if t == "component 1"));
}

#[test]
fn thirty_two_components_are_accepted() {
    let slots = read_components(&components(32)).unwrap();
    assert_eq!(slots.len(), 32);
    assert_eq!(used_slots(&slots), 32);
    let token = fill_platform_token(
        SignedObject::new(),
        &CborValue::Mapping(replaced(platform_entries(), 2399, components(32))),
    )
    .unwrap();
    assert_eq!(used_slots(&token.sw_component_claims), 32);
}

#[test]
fn thirty_three_components_are_an_invalid_format() {
    assert_eq!(
        read_components(&components(33)).unwrap_err(),
        TokenError::InvalidTokenFormat("software component count")
    );
    let res = fill_platform_token(
        SignedObject::new(),
        &CborValue::Mapping(replaced(platform_entries(), 2399, components(33))),
    );
    assert_eq!(res.unwrap_err(), TokenError::InvalidTokenFormat("software component count"));
}

#[test]
fn zero_components_are_an_invalid_format() {
    assert_eq!(
        read_components(&components(0)).unwrap_err(),
        TokenError::InvalidTokenFormat("software component count")
    );
    let res = fill_platform_token(
        SignedObject::new(),
        &CborValue::Mapping(replaced(platform_entries(), 2399, components(0))),
    );
    assert_eq!(res.unwrap_err(), TokenError::InvalidTokenFormat("software component count"));
}

#[test]
fn one_component_is_accepted() {
    let slots = read_components(&components(1)).unwrap();
    assert_eq!(slots.len(), 32);
    assert!(slots[0].present);
    assert_eq!(used_slots(&slots), 1);
}

#[test]
fn components_that_are_no_array_are_a_mismatch() {
    assert_eq!(read_components(&text("none")).unwrap_err(), TokenError::ClaimDataMisMatchType);
}

#[test]
fn a_component_that_is_no_map_is_a_mismatch() {
    let value = CborValue::Array(vec![component("a"), number(7)]);
    assert_eq!(read_components(&value).unwrap_err(), TokenError::ClaimDataMisMatchType);
}

#[test]
fn a_component_claim_of_another_kind_is_a_mismatch() {
    let value = CborValue::Array(vec![CborValue::Mapping(vec![
        (number(1), text("BL")),
        (number(2), text("not bytes")),
        (number(5), bytes(&[1])),
    ])]);
    assert_eq!(read_components(&value).unwrap_err(), TokenError::ClaimDataMisMatchType);
}

#[test]
fn a_later_components_claim_replaces_the_slots_of_an_earlier_one() {
    let mut entries = platform_entries();
    entries.push((number(2399), components(1)));
    let token = fill_platform_token(SignedObject::new(), &CborValue::Mapping(entries)).unwrap();
    assert_eq!(used_slots(&token.sw_component_claims), 1);
    assert!(token.sw_component_claims[0].present);
    assert!(!token.sw_component_claims[1].present);
    assert!(!token.sw_component_claims[1].claims.get(&1).unwrap().present);
}

#[test]
fn a_claim_of_another_kind_is_a_mismatch() {
    let res = fill_platform_token(
        SignedObject::new(),
        &CborValue::Mapping(replaced(platform_entries(), 10, text("not bytes"))),
    );
    assert_eq!(res.unwrap_err(), TokenError::ClaimDataMisMatchType);
    let res = fill_platform_token(
        SignedObject::new(),
        &CborValue::Mapping(replaced(platform_entries(), 2395, bytes(&[1]))),
    );
    assert_eq!(res.unwrap_err(), TokenError::ClaimDataMisMatchType);
    let res = fill_realm_token(
        SignedObject::new(),
        &CborValue::Mapping(replaced(realm_entries(), 44236, CborValue::Bool(true))),
    );
    assert_eq!(res.unwrap_err(), TokenError::ClaimDataMisMatchType);
    let res = fill_realm_token(
        SignedObject::new(),
        &CborValue::Mapping(replaced(realm_entries(), 44237, CborValue::Other)),
    );
    assert_eq!(res.unwrap_err(), TokenError::ClaimDataMisMatchType);
}

#[test]
fn an_integer_beyond_sixty_four_bits_is_a_mismatch() {
    let res = fill_platform_token(
        SignedObject::new(),
        &CborValue::Mapping(replaced(platform_entries(), 2395, number(i64::MAX as i128 + 1))),
    );
    assert_eq!(res.unwrap_err(), TokenError::ClaimDataMisMatchType);
    let token = fill_platform_token(
        SignedObject::new(),
        &CborValue::Mapping(replaced(platform_entries(), 2395, number(i64::MIN as i128))),
    )
    .unwrap();
    assert!(matches!(token.token_claims.get(&2395).unwrap().data, ClaimData::Int64(i64::MIN)));
}

#[test]
fn an_unknown_label_is_passed_over() {
    let mut entries = platform_entries();
    entries.insert(3, (number(99999), CborValue::Bool(true)));
    let token = fill_platform_token(SignedObject::new(), &CborValue::Mapping(entries)).unwrap();
    assert_eq!(token.token_claims.len(), 8);
    assert!(token.token_claims.get(&99999).is_none());
    let plain =
        fill_platform_token(SignedObject::new(), &CborValue::Mapping(platform_entries())).unwrap();
    for (label, claim) in plain.token_claims.iter() {
        let other = token.token_claims.get(label).unwrap();
        assert_eq!(format!("{:?}", claim), format!("{:?}", other));
    }
}

#[test]
fn a_key_that_is_no_label_is_passed_over() {
    let mut entries = realm_entries();
    entries.push((text("10"), bytes(&[9])));
    entries.push((number(-10), bytes(&[9])));
    entries.push((number(0x1_0000_0000 + 10), text("aliases no label")));
    entries.push((CborValue::Other, CborValue::Other));
    let token = fill_realm_token(SignedObject::new(), &CborValue::Mapping(entries)).unwrap();
    let challenge = token.token_claims.get(&10).unwrap();
    assert!(matches!(&challenge.data, ClaimData::Bstr(b) if b == &vec![0xbb; 64]));
}

#[test]
fn a_later_entry_overwrites_an_earlier_one() {
    let mut entries = platform_entries();
    entries.push((number(2402), text("sha-512")));
    let token = fill_platform_token(SignedObject::new(), &CborValue::Mapping(entries)).unwrap();
    let algo = token.token_claims.get(&2402).unwrap();
    assert!(matches!(&algo.data, ClaimData::Text(t) if t == "sha-512"));
}

#[test]
fn each_absent_mandatory_claim_is_reported_by_its_label() {
    for label in [10u32, 256, 265, 2395, 2396, 2399, 2401, 2402] {
        let res = fill_platform_token(
            SignedObject::new(),
            &CborValue::Mapping(without(platform_entries(), label as i128)),
        );
        assert_eq!(res.unwrap_err(), TokenError::MissingMandatoryClaim(label));
    }
    for label in [10u32, 44235, 44236, 44237, 44238, 44239, 44240] {
        let res = fill_realm_token(
            SignedObject::new(),
            &CborValue::Mapping(without(realm_entries(), label as i128)),
        );
        assert_eq!(res.unwrap_err(), TokenError::MissingMandatoryClaim(label));
    }
}

#[test]
fn the_first_absent_claim_in_the_order_of_checking_is_reported() {
    let entries = without(without(platform_entries(), 2401), 256);
    let res = fill_platform_token(SignedObject::new(), &CborValue::Mapping(entries));
    assert_eq!(res.unwrap_err(), TokenError::MissingMandatoryClaim(256));
    let entries = without(without(platform_entries(), 2399), 2402);
    let res = fill_platform_token(SignedObject::new(), &CborValue::Mapping(entries));
    assert_eq!(res.unwrap_err(), TokenError::MissingMandatoryClaim(2402));
}

#[test]
fn an_absent_mandatory_claim_of_a_component_is_reported() {
    let broken = CborValue::Array(vec![
        component("first"),
        CborValue::Mapping(vec![(number(1), text("second")), (number(2), bytes(&[1]))]),
    ]);
    let res = fill_platform_token(
        SignedObject::new(),
        &CborValue::Mapping(replaced(platform_entries(), 2399, broken)),
    );
    assert_eq!(res.unwrap_err(), TokenError::MissingMandatoryClaim(5));
}

#[test]
fn an_absent_optional_claim_is_no_error() {
    let realm = fill_realm_token(
        SignedObject::new(),
        &CborValue::Mapping(without(realm_entries(), 265)),
    )
    .unwrap();
    assert!(!realm.token_claims.get(&265).unwrap().present);
    let typed = RealmClaims::from_raw_claims(&realm.token_claims, &realm.measurement_claims).unwrap();
    assert_eq!(typed.profile, None);

    let platform = fill_platform_token(
        SignedObject::new(),
        &CborValue::Mapping(without(platform_entries(), 2400)),
    )
    .unwrap();
    let typed = PlatClaims::from_raw_claims(&platform.token_claims).unwrap();
    assert_eq!(typed.verification_service, None);
    assert_eq!(typed.hash_algo, "sha-256");
}

#[test]
fn a_payload_that_is_no_map_is_an_invalid_format() {
    let res = fill_platform_token(SignedObject::new(), &components(1));
    assert_eq!(res.unwrap_err(), TokenError::InvalidTokenFormat("platform claims map"));
    let res = fill_realm_token(SignedObject::new(), &bytes(&[1, 2]));
    assert_eq!(res.unwrap_err(), TokenError::InvalidTokenFormat("realm claims map"));
}

#[test]
fn measurements_must_be_four_byte_strings() {
    let three = CborValue::Array(vec![bytes(&[1]), bytes(&[2]), bytes(&[3])]);
    assert_eq!(
        read_measurements(&three).unwrap_err(),
        TokenError::InvalidTokenFormat("extensible measurement count")
    );
    let five =
        CborValue::Array(vec![bytes(&[1]), bytes(&[2]), bytes(&[3]), bytes(&[4]), bytes(&[5])]);
    assert_eq!(
        read_measurements(&five).unwrap_err(),
        TokenError::InvalidTokenFormat("extensible measurement count")
    );
    let mixed = CborValue::Array(vec![bytes(&[1]), bytes(&[2]), text("3"), bytes(&[4])]);
    assert_eq!(read_measurements(&mixed).unwrap_err(), TokenError::ClaimDataMisMatchType);
    assert_eq!(read_measurements(&number(4)).unwrap_err(), TokenError::ClaimDataMisMatchType);
    let four = CborValue::Array(vec![bytes(&[1]), bytes(&[2]), bytes(&[3]), bytes(&[4])]);
    let claims = read_measurements(&four).unwrap();
    assert_eq!(claims.len(), 4);
    assert!(matches!(&claims.get(&2).unwrap().data, ClaimData::Bstr(b) if b == &vec![3u8]));
}

#[test]
fn the_signed_object_stays_with_the_token() {
    let signed = SignedObject {
        protected: vec![0xa1, 0x01, 0x26],
        algorithm: Some(-7),
        payload: vec![1, 2, 3],
        signature: vec![9; 64],
    };
    let token = fill_platform_token(signed, &CborValue::Mapping(platform_entries())).unwrap();
    assert_eq!(token.cose_sign1.protected, vec![0xa1, 0x01, 0x26]);
    assert_eq!(token.cose_sign1.algorithm, Some(-7));
    assert_eq!(token.cose_sign1.payload, vec![1, 2, 3]);
    assert_eq!(token.cose_sign1.signature, vec![9; 64]);
}

#[test]
fn store_leaves_the_claims_alone_on_a_mismatch() {
    let mut claims = SwComponent::new().claims;
    assert!(store(&mut claims, 1, &text("BL")).is_ok());
    assert_eq!(store(&mut claims, 1, &number(3)).unwrap_err(), TokenError::ClaimDataMisMatchType);
    let kind = claims.get(&1).unwrap();
    assert!(kind.present);
    assert!(matches!(&kind.data, ClaimData::Text(t) if t == "BL"));
    assert!(store(&mut claims, 77, &number(3)).is_ok());
    assert_eq!(claims.len(), 5);
}

#[test]
fn read_claims_stops_at_the_first_mismatch() {
    let mut claims = SwComponent::new().claims;
    let entries = vec![(number(1), text("BL")), (number(2), number(0)), (number(5), bytes(&[5]))];
    assert_eq!(read_claims(&mut claims, &entries).unwrap_err(), TokenError::ClaimDataMisMatchType);
}

#[test]
fn typed_component_takes_the_platform_hash_algorithm_by_default() {
    let slots = read_components(&components(1)).unwrap();
    let typed = PlatSwComponent::from_raw_claims(&slots[0].claims, &"sha-384".to_string()).unwrap();
    assert_eq!(typed.ty, "component 0");
    assert_eq!(typed.hash_algo, "sha-384");
    assert_eq!(typed.value, vec![0x11; 32]);
    assert_eq!(typed.version, Some("1.0.0".to_string()));
    assert_eq!(typed.signer_id, vec![0x22; 32]);

    let own = CborValue::Array(vec![CborValue::Mapping(vec![
        (number(1), text("BL")),
        (number(2), bytes(&[1])),
        (number(4), text("2")),
        (number(5), bytes(&[2])),
        (number(6), text("sha-512")),
    ])]);
    let slots = read_components(&own).unwrap();
    let typed = PlatSwComponent::from_raw_claims(&slots[0].claims, &"sha-384".to_string()).unwrap();
    assert_eq!(typed.hash_algo, "sha-512");
}

#[test]
fn typed_component_without_a_version_has_none() {
    let value = CborValue::Array(vec![CborValue::Mapping(vec![
        (number(1), text("BL")),
        (number(2), bytes(&[1])),
        (number(5), bytes(&[2])),
    ])]);
    let slots = read_components(&value).unwrap();
    let typed = PlatSwComponent::from_raw_claims(&slots[0].claims, &"sha-256".to_string()).unwrap();
    assert_eq!(typed.version, None);
    assert_eq!(typed.hash_algo, "sha-256");
    assert_eq!(typed.ty, "BL");
    assert_eq!(typed.value, vec![1]);
    assert_eq!(typed.signer_id, vec![2]);
}

#[test]
fn typed_component_with_a_version_of_another_kind_is_a_mismatch() {
    let mut claims = read_components(&components(1)).unwrap().remove(0).claims;
    claims.get_mut(&4).unwrap().data = ClaimData::Int64(3);
    let res = PlatSwComponent::from_raw_claims(&claims, &"sha-256".to_string());
    assert_eq!(res.unwrap_err(), TokenError::ClaimDataMisMatchType);
}

#[test]
fn typed_component_with_a_hash_algorithm_of_another_kind_is_a_mismatch() {
    let mut claims = read_components(&components(1)).unwrap().remove(0).claims;
    claims.get_mut(&6).unwrap().present = true;
    claims.get_mut(&6).unwrap().data = ClaimData::Bstr(vec![1]);
    let res = PlatSwComponent::from_raw_claims(&claims, &"sha-256".to_string());
    assert_eq!(res.unwrap_err(), TokenError::ClaimDataMisMatchType);

    claims.get_mut(&6).unwrap().present = false;
    let typed = PlatSwComponent::from_raw_claims(&claims, &"sha-256".to_string()).unwrap();
    assert_eq!(typed.hash_algo, "sha-256");
}

#[test]
fn typed_component_reports_the_first_failure() {
    let mut claims = read_components(&components(1)).unwrap().remove(0).claims;
    claims.get_mut(&6).unwrap().present = true;
    claims.get_mut(&6).unwrap().data = ClaimData::Bool(true);
    claims.get_mut(&2).unwrap().present = false;
    let res = PlatSwComponent::from_raw_claims(&claims, &"sha-256".to_string());
    assert_eq!(res.unwrap_err(), TokenError::ClaimDataMisMatchType);
    claims.get_mut(&1).unwrap().present = false;
    let res = PlatSwComponent::from_raw_claims(&claims, &"sha-256".to_string());
    assert_eq!(res.unwrap_err(), TokenError::MissingMandatoryClaim(1));
    claims.get_mut(&1).unwrap().present = true;
    claims.get_mut(&6).unwrap().present = false;
    let res = PlatSwComponent::from_raw_claims(&claims, &"sha-256".to_string());
    assert_eq!(res.unwrap_err(), TokenError::MissingMandatoryClaim(2));
}

#[test]
fn typed_realm_claims_with_a_profile_of_another_kind_are_a_mismatch() {
    let mut realm =
        fill_realm_token(SignedObject::new(), &CborValue::Mapping(realm_entries())).unwrap();
    let typed = RealmClaims::from_raw_claims(&realm.token_claims, &realm.measurement_claims).unwrap();
    assert_eq!(typed.profile, Some("tag:arm.com,2023:realm#1.0.0".to_string()));
    realm.token_claims.get_mut(&265).unwrap().data = ClaimData::Int64(1);
    let res = RealmClaims::from_raw_claims(&realm.token_claims, &realm.measurement_claims);
    assert_eq!(res.unwrap_err(), TokenError::ClaimDataMisMatchType);
    realm.token_claims.get_mut(&265).unwrap().present = false;
    let typed = RealmClaims::from_raw_claims(&realm.token_claims, &realm.measurement_claims).unwrap();
    assert_eq!(typed.profile, None);
}

#[test]
fn typed_platform_claims_with_a_verification_service_of_another_kind_are_a_mismatch() {
    let mut platform =
        fill_platform_token(SignedObject::new(), &CborValue::Mapping(platform_entries())).unwrap();
    let typed = PlatClaims::from_raw_claims(&platform.token_claims).unwrap();
    assert_eq!(typed.verification_service, Some("https://veraison.example".to_string()));
    platform.token_claims.get_mut(&2400).unwrap().data = ClaimData::Bstr(vec![1]);
    let res = PlatClaims::from_raw_claims(&platform.token_claims);
    assert_eq!(res.unwrap_err(), TokenError::ClaimDataMisMatchType);
    platform.token_claims.get_mut(&2400).unwrap().present = false;
    let typed = PlatClaims::from_raw_claims(&platform.token_claims).unwrap();
    assert_eq!(typed.verification_service, None);
}

#[test]
fn every_component_of_a_parsed_token_has_a_typed_view() {
    let token =
        fill_platform_token(SignedObject::new(), &CborValue::Mapping(platform_entries())).unwrap();
    let algo = "sha-256".to_string();
    for slot in token.sw_component_claims.iter().filter(|slot| slot.present) {
        let typed = PlatSwComponent::from_raw_claims(&slot.claims, &algo).unwrap();
        assert_eq!(typed.hash_algo, "sha-256");
        assert_eq!(typed.version, Some("1.0.0".to_string()));
    }
}
