use coset::{iana, CoseSign1Builder, HeaderBuilder, TaggedCborSerializable};
use p256::ecdsa::signature::Signer;
use rust_rsi::token::crypto::{
    check_signature, digest, hash_algorithm, same_bytes, signing_algorithm, HashAlgorithm,
    SigningAlgorithm,
};
use rust_rsi::token::envelope::decode_signed_object;
use rust_rsi::token::error::TokenError;
use rust_rsi::token::verification::{binding_verdict, signature_verdict, verify_signed_object};
use rust_rsi::token::SignedObject;

fn unhex(text: &str) -> Vec<u8> {
    let digits: Vec<u8> =
        text.chars().filter(|c| !c.is_whitespace()).map(|c| c.to_digit(16).unwrap() as u8).collect();
    digits.chunks(2).map(|pair| pair[0] * 16 + pair[1]).collect()
}

fn sig_structure(protected: &[u8], payload: &[u8]) -> Vec<u8> {
    assert!(protected.len() < 24 && payload.len() < 24);
    let mut out = vec![0x84, 0x6a];
    out.extend_from_slice(b"Signature1");
    out.push(0x40 + protected.len() as u8);
    out.extend_from_slice(protected);
    out.push(0x40);
    out.push(0x40 + payload.len() as u8);
    out.extend_from_slice(payload);
    out
}

#[test]
fn sha256_of_abc() {
    assert_eq!(
        digest(HashAlgorithm::Sha256, b"abc"),
        unhex("ba7816bf8f01cfea414140de5dae2223b00361a396177a9cb410ff61f20015ad")
    );
}

#[test]
fn sha384_of_abc() {
    assert_eq!(
        digest(HashAlgorithm::Sha384, b"abc"),
        unhex(
            "cb00753f45a35e8bb5a03d699ac65007272c32ab0eded1631a8b605a43ff5bed
             8086072ba1e7cc2358baeca134c825a7"
        )
    );
}

#[test]
fn sha512_of_abc() {
    assert_eq!(
        digest(HashAlgorithm::Sha512, b"abc"),
        unhex(
            "ddaf35a193617abacc417349ae20413112e6fa4e89a97ea20a9eeee64b55d39a
             2192992a274fc1a836ba3c23a3feebbd454d4423643ce80e2a9ac94fa54ca49f"
        )
    );
}

#[test]
fn sha256_of_nothing() {
    assert_eq!(
        digest(HashAlgorithm::Sha256, b""),
        unhex("e3b0c44298fc1c149afbf4c8996fb92427ae41e4649b934ca495991b7852b855")
    );
}

#[test]
fn hash_algorithms_by_name() {
    assert_eq!(hash_algorithm("sha-256"), Some(HashAlgorithm::Sha256));
    assert_eq!(hash_algorithm("sha-384"), Some(HashAlgorithm::Sha384));
    assert_eq!(hash_algorithm("sha-512"), Some(HashAlgorithm::Sha512));
    assert_eq!(hash_algorithm("sha-257"), None);
    assert_eq!(hash_algorithm("SHA-256"), None);
    assert_eq!(hash_algorithm(""), None);
}

#[test]
fn signing_algorithms_by_number() {
    assert_eq!(signing_algorithm(Some(-7)), Some(SigningAlgorithm::Es256));
    assert_eq!(signing_algorithm(Some(-35)), Some(SigningAlgorithm::Es384));
    assert_eq!(signing_algorithm(Some(-36)), Some(SigningAlgorithm::Es512));
    assert_eq!(signing_algorithm(Some(-8)), None);
    assert_eq!(signing_algorithm(Some(7)), None);
    assert_eq!(signing_algorithm(None), None);
}

#[test]
fn same_bytes_compares_content() {
    assert!(same_bytes(&[], &[]));
    assert!(same_bytes(&[1, 2, 3], &[1, 2, 3]));
    assert!(!same_bytes(&[1, 2, 3], &[1, 2, 4]));
    assert!(!same_bytes(&[1, 2, 3], &[1, 2]));
    assert!(!same_bytes(&[], &[0]));
}

#[test]
fn p256_signature_is_checked() {
    let key = p256::ecdsa::SigningKey::from_slice(&[0x31; 32]).unwrap();
    let public = key.verifying_key().to_encoded_point(false).as_bytes().to_vec();
    let signature: p256::ecdsa::Signature = key.sign(b"message");
    let signature = signature.to_bytes().to_vec();
    assert!(check_signature(SigningAlgorithm::Es256, &public, b"message", &signature).is_ok());
    assert!(check_signature(SigningAlgorithm::Es256, &public, b"massage", &signature).is_err());
    assert!(check_signature(SigningAlgorithm::Es256, &public, b"message", &signature[1..]).is_err());
    assert!(check_signature(SigningAlgorithm::Es256, &public[1..], b"message", &signature).is_err());
    assert!(check_signature(SigningAlgorithm::Es384, &public, b"message", &signature).is_err());
    let mut other = signature.clone();
    other[40] ^= 1;
    assert!(check_signature(SigningAlgorithm::Es256, &public, b"message", &other).is_err());
}

#[test]
fn p384_signature_is_checked() {
    let key = p384::ecdsa::SigningKey::from_slice(&[0x32; 48]).unwrap();
    let public = key.verifying_key().to_encoded_point(false).as_bytes().to_vec();
    let signature: p384::ecdsa::Signature = key.sign(b"message");
    let signature = signature.to_bytes().to_vec();
    assert_eq!(signature.len(), 96);
    assert!(check_signature(SigningAlgorithm::Es384, &public, b"message", &signature).is_ok());
    assert!(check_signature(SigningAlgorithm::Es384, &public, b"messages", &signature).is_err());
    assert!(check_signature(SigningAlgorithm::Es256, &public, b"message", &signature).is_err());
}

#[test]
fn p521_signature_is_checked() {
    let public = unhex(
        "040008592190a43310171039a00779d1b7cb0223ca9b0abb716ac22e426202cc92f291ba0933ba7c02f5bd36
         5e6188da75ed8a9812ea2f9e633aeb8d2b9c9214f0a010005fbbe33ae9581ed4e95a4a86cde2bcf5fb141f77
         d4feb12f8eb26219a302a1ea3c22f4cbd95d8907a004f8a640eeec462fe9262b5b2f84bb7dffb0dd1bc5fcdb
         6f",
    );
    let signature = unhex(
        "009496400f38c342dd5d70ef017effea52ba45695ded83232b76b36417b870fc46bc5ae7d6f8bf3b9638972c
         2eeab9eaca2e0a43ddb198c9af2d6944db56f53e1d3f00f7b482c9fbb565c23b6c707549e962ae8dd17d5f25
         fab6273b09003c19a028eccca7509461a675aa7e9a80d7889023cdeb285b744b50ba12e31a863e888fbd1e6f",
    );
    assert_eq!(public.len(), 133);
    assert_eq!(signature.len(), 132);
    assert!(check_signature(SigningAlgorithm::Es512, &public, b"message", &signature).is_ok());
    assert!(check_signature(SigningAlgorithm::Es512, &public, b"", &signature).is_err());
    assert!(check_signature(SigningAlgorithm::Es384, &public, b"message", &signature).is_err());
    let mut other = signature.clone();
    other[100] ^= 1;
    assert!(check_signature(SigningAlgorithm::Es512, &public, b"message", &other).is_err());
}

#[test]
fn signed_object_is_checked_over_its_signature_structure() {
    let key = p256::ecdsa::SigningKey::from_slice(&[0x41; 32]).unwrap();
    let public = key.verifying_key().to_encoded_point(false).as_bytes().to_vec();
    let protected = vec![0xa1, 0x01, 0x26];
    let payload = vec![1, 2, 3];
    let signature: p256::ecdsa::Signature = key.sign(&sig_structure(&protected, &payload));
    let signed = SignedObject {
        protected: protected.clone(),
        algorithm: Some(-7),
        payload: payload.clone(),
        signature: signature.to_bytes().to_vec(),
    };
    assert!(verify_signed_object(&signed, &public, "platform").is_ok());

    let other_payload = SignedObject {
        protected: protected.clone(),
        algorithm: Some(-7),
        payload: vec![1, 2, 4],
        signature: signature.to_bytes().to_vec(),
    };
    assert_eq!(
        verify_signed_object(&other_payload, &public, "platform").unwrap_err(),
        TokenError::VerificationFailed("platform")
    );
    let other_header = SignedObject {
        protected: vec![0xa1, 0x01, 0x27],
        algorithm: Some(-7),
        payload: payload.clone(),
        signature: signature.to_bytes().to_vec(),
    };
    assert_eq!(
        verify_signed_object(&other_header, &public, "realm").unwrap_err(),
        TokenError::VerificationFailed("realm")
    );
    let no_algorithm = SignedObject {
        protected,
        algorithm: None,
        payload,
        signature: signature.to_bytes().to_vec(),
    };
    assert_eq!(
        verify_signed_object(&no_algorithm, &public, "realm").unwrap_err(),
        TokenError::InvalidAlgorithm(None)
    );
}

#[test]
fn signed_object_under_es384_is_checked() {
    let key = p384::ecdsa::SigningKey::from_slice(&[0x42; 48]).unwrap();
    let public = key.verifying_key().to_encoded_point(false).as_bytes().to_vec();
    let protected = vec![0xa1, 0x01, 0x38, 0x22];
    let payload = vec![0xa0];
    let signature: p384::ecdsa::Signature = key.sign(&sig_structure(&protected, &payload));
    let signed = SignedObject {
        protected,
        algorithm: Some(-35),
        payload,
        signature: signature.to_bytes().to_vec(),
    };
    assert!(verify_signed_object(&signed, &public, "realm").is_ok());
    let as_es256 = SignedObject { algorithm: Some(-7), ..signed };
    assert_eq!(
        verify_signed_object(&as_es256, &public, "realm").unwrap_err(),
        TokenError::VerificationFailed("realm")
    );
}

#[test]
fn signed_object_is_decoded_field_by_field() {
    let protected = HeaderBuilder::new().algorithm(iana::Algorithm::ES384).build();
    let bytes = CoseSign1Builder::new()
        .protected(protected)
        .payload(vec![0xa1, 0x0a, 0x41, 0x07])
        .signature(vec![0x5a; 96])
        .build()
        .to_tagged_vec()
        .unwrap();
    let signed = decode_signed_object(&bytes).unwrap();
    assert_eq!(signed.protected, vec![0xa1, 0x01, 0x38, 0x22]);
    assert_eq!(signed.algorithm, Some(-35));
    assert_eq!(signed.payload, vec![0xa1, 0x0a, 0x41, 0x07]);
    assert_eq!(signed.signature, vec![0x5a; 96]);
}

#[test]
fn signed_object_without_algorithm_or_payload() {
    // 18([h'', {}, null, h'0102'])
    let signed = decode_signed_object(&[0xd2, 0x84, 0x40, 0xa0, 0xf6, 0x42, 0x01, 0x02]).unwrap();
    assert_eq!(signed.protected, Vec::<u8>::new());
    assert_eq!(signed.algorithm, None);
    assert_eq!(signed.payload, Vec::<u8>::new());
    assert_eq!(signed.signature, vec![1, 2]);
}

#[test]
fn signed_object_with_a_named_algorithm_has_no_number() {
    // 18([h'a1016161', {}, h'', h'']): the protected header is {1: "a"}
    let bytes = [0xd2, 0x84, 0x44, 0xa1, 0x01, 0x61, 0x61, 0xa0, 0x40, 0x40];
    let signed = decode_signed_object(&bytes).unwrap();
    assert_eq!(signed.protected, vec![0xa1, 0x01, 0x61, 0x61]);
    assert_eq!(signed.algorithm, None);
}

#[test]
fn signed_object_with_a_private_algorithm_keeps_its_number() {
    // 18([h'a1013a0001ffff', {}, h'', h'']): the protected header is {1: -131072}
    let bytes = [0xd2, 0x84, 0x47, 0xa1, 0x01, 0x3a, 0x00, 0x01, 0xff, 0xff, 0xa0, 0x40, 0x40];
    let signed = decode_signed_object(&bytes).unwrap();
    assert_eq!(signed.algorithm, Some(-131072));
}

#[test]
fn signed_object_errors() {
    assert!(matches!(decode_signed_object(&[0xd2]).unwrap_err(), TokenError::Ciborium(_)));
    assert_eq!(
        decode_signed_object(&[0x84, 0x40, 0xa0, 0xf6, 0x40]).unwrap_err(),
        TokenError::InvalidTag("signed object tag")
    );
    assert_eq!(
        decode_signed_object(&[0xd1, 0x84, 0x40, 0xa0, 0xf6, 0x40]).unwrap_err(),
        TokenError::InvalidTag("signed object tag")
    );
    assert!(matches!(
        decode_signed_object(&[0xd2, 0x83, 0x40, 0xa0, 0xf6]).unwrap_err(),
        TokenError::Coset(_)
    ));
    assert!(matches!(
        decode_signed_object(&[0xd2, 0x84, 0x40, 0xa0, 0xf6, 0x40, 0x00]).unwrap_err(),
        TokenError::Coset(_)
    ));
}

#[test]
fn verdicts_name_their_stage() {
    assert!(signature_verdict(Ok(()), "platform").is_ok());
    assert_eq!(
        signature_verdict(Err(ecdsa::Error::new()), "platform").unwrap_err(),
        TokenError::VerificationFailed("platform")
    );
    assert_eq!(
        signature_verdict(Err(ecdsa::Error::new()), "realm").unwrap_err(),
        TokenError::VerificationFailed("realm")
    );
    assert!(binding_verdict(&[1, 2], &[1, 2]).is_ok());
    assert_eq!(
        binding_verdict(&[1, 2], &[1, 3]).unwrap_err(),
        TokenError::VerificationFailed("key-binding")
    );
    assert_eq!(
        binding_verdict(&[1, 2], &[1, 2, 0]).unwrap_err(),
        TokenError::VerificationFailed("key-binding")
    );
}

#[test]
fn errors_are_equal_by_kind_and_context() {
    assert_eq!(TokenError::InvalidKey("a"), TokenError::InvalidKey("a"));
    assert_ne!(TokenError::InvalidKey("a"), TokenError::InvalidKey("b"));
    assert_ne!(TokenError::InvalidKey("a"), TokenError::InvalidTag("a"));
    assert_eq!(TokenError::InvalidTokenFormat("x"), TokenError::InvalidTokenFormat("x"));
    assert_eq!(TokenError::NotImplemented("x"), TokenError::NotImplemented("x"));
    assert_ne!(TokenError::NotImplemented("x"), TokenError::NotImplemented("y"));
    assert_ne!(TokenError::VerificationFailed("realm"), TokenError::VerificationFailed("platform"));
    assert_eq!(TokenError::InvalidAlgorithm(Some(-7)), TokenError::InvalidAlgorithm(Some(-7)));
    assert_ne!(TokenError::InvalidAlgorithm(Some(-7)), TokenError::InvalidAlgorithm(Some(-35)));
    assert_ne!(TokenError::InvalidAlgorithm(Some(-7)), TokenError::InvalidAlgorithm(None));
    assert_eq!(TokenError::InvalidAlgorithm(None), TokenError::InvalidAlgorithm(None));
    assert_eq!(TokenError::MissingMandatoryClaim(10), TokenError::MissingMandatoryClaim(10));
    assert_ne!(TokenError::MissingMandatoryClaim(10), TokenError::MissingMandatoryClaim(11));
    assert_eq!(TokenError::ClaimDataMisMatchType, TokenError::ClaimDataMisMatchType);
    assert_ne!(TokenError::ClaimDataMisMatchType, TokenError::MissingMandatoryClaim(0));
}

#[test]
fn codec_errors_are_equal_by_kind_alone() {
    let truncated = decode_signed_object(&[0xd2]).unwrap_err();
    let invalid = decode_signed_object(&[0xff]).unwrap_err();
    assert!(matches!(truncated, TokenError::Ciborium(_)));
    assert!(matches!(invalid, TokenError::Ciborium(_)));
    assert_eq!(truncated, invalid);
    let short = decode_signed_object(&[0xd2, 0x83, 0x40, 0xa0, 0xf6]).unwrap_err();
    let trailing = decode_signed_object(&[0xd2, 0x84, 0x40, 0xa0, 0xf6, 0x40, 0x00]).unwrap_err();
    assert_eq!(short, trailing);
    assert_ne!(short, truncated);
}

#[test]
fn outside_errors_convert_to_their_kind() {
    let err = TokenError::from(ecdsa::Error::new());
    assert!(matches!(err, TokenError::Ecdsa(_)));
    assert_eq!(err, TokenError::Ecdsa(ecdsa::Error::new()));
    assert_ne!(err, TokenError::VerificationFailed("platform"));
    let err = TokenError::from(coset::CoseError::EncodeFailed);
    assert!(matches!(err, TokenError::Coset(coset::CoseError::EncodeFailed)));
    assert_eq!(err, TokenError::from(coset::CoseError::DuplicateMapKey));
    let err = TokenError::from(ciborium::de::Error::<std::io::Error>::Syntax(3));
    assert!(matches!(err, TokenError::Ciborium(ciborium::de::Error::Syntax(3))));
    assert_eq!(err, TokenError::from(ciborium::de::Error::<std::io::Error>::RecursionLimitExceeded));
    assert_ne!(err, TokenError::from(coset::CoseError::EncodeFailed));
}
