use rust_rsi::token::cbor::decode;
use rust_rsi::token::cbor::CborValue;
use rust_rsi::token::error::TokenError;
use rust_rsi::token::parser::{
    get_bstr_claim, get_claim, get_int64_claim, get_text_claim, PlatClaims, RealmClaims,
};
use rust_rsi::token::{Claim, ClaimData, PlatformToken, RealmToken, SwComponent};

fn kind_of(data: &ClaimData) -> &'static str {
    match data {
        ClaimData::Bool(_) => "bool",
        ClaimData::Int64(_) => "int",
        ClaimData::Bstr(_) => "bstr",
        ClaimData::Text(_) => "text",
    }
}

#[test]
fn fresh_realm_token_has_seven_claims_and_four_measurements() {
    let token = RealmToken::new();
    assert_eq!(token.token_claims.len(), 7);
    assert_eq!(token.measurement_claims.len(), 4);
    for ordinal in 0u32..4 {
        let claim = token.measurement_claims.get(&ordinal).unwrap();
        assert!(claim.mandatory);
        assert!(!claim.present);
        assert!(matches!(claim.data, ClaimData::Bstr(_)));
    }
}

#[test]
fn fresh_platform_token_has_eight_claims_and_thirty_two_slots() {
    let token = PlatformToken::new();
    assert_eq!(token.token_claims.len(), 8);
    assert_eq!(token.sw_component_claims.len(), 32);
    for component in token.sw_component_claims.iter() {
        assert!(!component.present);
        assert_eq!(component.claims.len(), 5);
    }
}

#[test]
fn decode_reads_nested_items() {
    // 399({44234: h'0102', "a": [true, -2]})
    let bytes: Vec<u8> = vec![
        0xd9, 0x01, 0x8f, 0xa2, 0x19, 0xac, 0xca, 0x42, 0x01, 0x02, 0x61, 0x61, 0x82, 0xf5, 0x21,
    ];
    let value = decode(&bytes).unwrap();
    match value {
        CborValue::Tag(tag, inner) => {
            assert_eq!(tag, 399);
            match *inner {
                CborValue::Mapping(entries) => {
                    assert_eq!(entries.len(), 2);
                    assert!(matches!(entries[0].0, CborValue::Integer(44234)));
                    assert!(matches!(&entries[0].1, CborValue::Bytes(b) if b == &vec![1u8, 2]));
                    assert!(matches!(&entries[1].0, CborValue::Text(t) if t == "a"));
                    match &entries[1].1 {
                        CborValue::Array(items) => {
                            assert_eq!(items.len(), 2);
                            assert!(matches!(items[0], CborValue::Bool(true)));
                            assert!(matches!(items[1], CborValue::Integer(-2)));
                        }
                        _ => panic!("not an array"),
                    }
                }
                _ => panic!("not a map"),
            }
        }
        _ => panic!("not a tag"),
    }
}

#[test]
fn empty_claim_data_of_each_kind() {
    assert!(matches!(ClaimData::new_bool(), ClaimData::Bool(false)));
    assert!(matches!(ClaimData::new_int64(), ClaimData::Int64(0)));
    assert!(matches!(ClaimData::new_bstr(), ClaimData::Bstr(b) if b.is_empty()));
    assert!(matches!(ClaimData::new_text(), ClaimData::Text(t) if t.is_empty()));
    assert!(matches!(ClaimData::default(), ClaimData::Bool(false)));
}

#[test]
fn claim_data_getters_return_the_content() {
    assert!(ClaimData::Bool(true).get_bool());
    assert_eq!(ClaimData::Int64(-5).get_int64(), -5);
    assert_eq!(ClaimData::Bstr(vec![1, 2]).get_bstr(), &[1u8, 2][..]);
    assert_eq!(ClaimData::Text("abc".to_string()).get_text(), "abc");
}

#[test]
fn claim_data_converts_to_its_own_kind_only() {
    assert_eq!(String::try_from(ClaimData::Text("t".to_string())).unwrap(), "t");
    assert_eq!(
        String::try_from(ClaimData::Bstr(vec![1])).unwrap_err(),
        TokenError::ClaimDataMisMatchType
    );
    assert_eq!(Vec::<u8>::try_from(ClaimData::Bstr(vec![1, 2])).unwrap(), vec![1, 2]);
    assert_eq!(
        Vec::<u8>::try_from(ClaimData::Text("t".to_string())).unwrap_err(),
        TokenError::ClaimDataMisMatchType
    );
    assert_eq!(i64::try_from(ClaimData::Int64(9)).unwrap(), 9);
    assert_eq!(i64::try_from(ClaimData::Bool(true)).unwrap_err(), TokenError::ClaimDataMisMatchType);
    assert!(bool::try_from(ClaimData::Bool(true)).unwrap());
    assert_eq!(bool::try_from(ClaimData::Int64(1)).unwrap_err(), TokenError::ClaimDataMisMatchType);
}

#[test]
fn claim_data_clone_keeps_the_content() {
    let data = ClaimData::Bstr(vec![7, 8, 9]);
    assert!(matches!(data.clone(), ClaimData::Bstr(b) if b == vec![7, 8, 9]));
    let data = ClaimData::Text("x".to_string());
    assert!(matches!(data.clone(), ClaimData::Text(t) if t == "x"));
}

#[test]
fn new_claim_is_not_present() {
    let claim = Claim::new(true, ClaimData::new_text(), "Profile");
    assert!(claim.mandatory);
    assert!(!claim.present);
    assert_eq!(claim.title, "Profile");
    assert!(matches!(claim.data, ClaimData::Text(t) if t.is_empty()));
}

#[test]
fn schemas_have_the_kinds_and_the_mandatory_marks_of_the_tables() {
    let platform = PlatformToken::new();
    let expected: [(u32, bool, &str); 8] = [
        (10, true, "bstr"),
        (256, true, "bstr"),
        (265, true, "text"),
        (2395, true, "int"),
        (2396, true, "bstr"),
        (2400, false, "text"),
        (2401, true, "bstr"),
        (2402, true, "text"),
    ];
    for (label, mandatory, kind) in expected {
        let claim = platform.token_claims.get(&label).unwrap();
        assert_eq!(claim.mandatory, mandatory);
        assert_eq!(kind_of(&claim.data), kind);
    }
    let realm = RealmToken::new();
    let expected: [(u32, bool, &str); 7] = [
        (10, true, "bstr"),
        (265, false, "text"),
        (44235, true, "bstr"),
        (44236, true, "text"),
        (44237, true, "bstr"),
        (44238, true, "bstr"),
        (44240, true, "text"),
    ];
    for (label, mandatory, kind) in expected {
        let claim = realm.token_claims.get(&label).unwrap();
        assert_eq!(claim.mandatory, mandatory);
        assert_eq!(kind_of(&claim.data), kind);
    }
    let component = SwComponent::new();
    let expected: [(u32, bool, &str); 5] = [
        (1, true, "text"),
        (2, true, "bstr"),
        (4, false, "text"),
        (5, true, "bstr"),
        (6, false, "text"),
    ];
    for (label, mandatory, kind) in expected {
        let claim = component.claims.get(&label).unwrap();
        assert_eq!(claim.mandatory, mandatory);
        assert_eq!(kind_of(&claim.data), kind);
    }
}

#[test]
fn get_claim_wants_a_written_slot() {
    let mut claims = SwComponent::new().claims;
    assert_eq!(get_claim(1, &claims).unwrap_err(), TokenError::MissingMandatoryClaim(1));
    assert_eq!(get_claim(3, &claims).unwrap_err(), TokenError::MissingMandatoryClaim(3));
    claims.get_mut(&1).unwrap().present = true;
    claims.get_mut(&1).unwrap().data = ClaimData::Text("BL".to_string());
    assert!(matches!(get_claim(1, &claims).unwrap(), ClaimData::Text(t) if t == "BL"));
    assert_eq!(get_text_claim(1, &claims).unwrap(), "BL");
    assert_eq!(get_bstr_claim(1, &claims).unwrap_err(), TokenError::ClaimDataMisMatchType);
    assert_eq!(get_int64_claim(1, &claims).unwrap_err(), TokenError::ClaimDataMisMatchType);
    assert_eq!(get_int64_claim(9, &claims).unwrap_err(), TokenError::MissingMandatoryClaim(9));
}

#[test]
fn typed_platform_claims_report_the_first_failure() {
    let mut claims = PlatformToken::new().token_claims;
    assert_eq!(
        PlatClaims::from_raw_claims(&claims).unwrap_err(),
        TokenError::MissingMandatoryClaim(10)
    );
    for claim in claims.values_mut() {
        claim.present = true;
    }
    let typed = PlatClaims::from_raw_claims(&claims).unwrap();
    assert_eq!(typed.lifecycle, 0);
    assert_eq!(typed.verification_service, Some(String::new()));
    claims.get_mut(&265).unwrap().present = false;
    claims.get_mut(&2401).unwrap().present = false;
    assert_eq!(
        PlatClaims::from_raw_claims(&claims).unwrap_err(),
        TokenError::MissingMandatoryClaim(265)
    );
    claims.get_mut(&265).unwrap().present = true;
    claims.get_mut(&265).unwrap().data = ClaimData::Int64(1);
    assert_eq!(PlatClaims::from_raw_claims(&claims).unwrap_err(), TokenError::ClaimDataMisMatchType);
}

#[test]
fn typed_realm_claims_want_the_four_measurements() {
    let mut token = RealmToken::new();
    for claim in token.token_claims.values_mut() {
        claim.present = true;
    }
    assert_eq!(
        RealmClaims::from_raw_claims(&token.token_claims, &token.measurement_claims).unwrap_err(),
        TokenError::MissingMandatoryClaim(0)
    );
    for claim in token.measurement_claims.values_mut() {
        claim.present = true;
    }
    token.measurement_claims.get_mut(&3).unwrap().data = ClaimData::Bstr(vec![3]);
    token.measurement_claims.get_mut(&2).unwrap().present = false;
    assert_eq!(
        RealmClaims::from_raw_claims(&token.token_claims, &token.measurement_claims).unwrap_err(),
        TokenError::MissingMandatoryClaim(2)
    );
    token.measurement_claims.get_mut(&2).unwrap().present = true;
    let typed =
        RealmClaims::from_raw_claims(&token.token_claims, &token.measurement_claims).unwrap();
    assert_eq!(typed.rems.len(), 4);
    assert_eq!(typed.rems[3], vec![3]);
    assert_eq!(typed.profile, Some(String::new()));
}
