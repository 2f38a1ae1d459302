//! The envelope of an attestation token: a tagged map that holds the two signed objects.

use vstd::prelude::*;
use coset::TaggedCborSerializable;
use crate::token::{
    CCA_PLAT_TOKEN, CCA_REALM_DELEGATED_TOKEN, SignedObject, SignedObjectView, TAG_CCA_TOKEN,
    TAG_COSE_SIGN1,
};
use crate::token::cbor::{
    Cbor, cbor_decoding, CborValue, decode, entries_model, lemma_mapping_model,
};
use crate::token::error::{Fault, TokenError};

verus! {

/// The label that a map's key stands for: the key's number, where the key is an integer that
/// fits in 32 bits without a sign.
pub open spec fn label_of(key: Cbor) -> Option<u32> {
    match key {
        Cbor::Integer(number) => if 0 <= number <= u32::MAX {
            Some(number as u32)
        } else {
            None
        },
        _ => None,
    }
}

/// The value of the first entry whose key stands for `label`.
pub open spec fn find_entry(entries: Seq<(Cbor, Cbor)>, label: u32) -> Option<Cbor>
    decreases entries.len(),
{
    if entries.len() == 0 {
        None
    } else if label_of(entries[0].0) == Some(label) {
        Some(entries[0].1)
    } else {
        find_entry(entries.drop_first(), label)
    }
}

/// The two byte strings that an attestation token holds: the encoded platform token, then the
/// encoded realm token.
///
/// The item must carry the tag 399 and hold a map. The map must have an entry for each of the
/// two keys; entries under other keys are passed over.
pub open spec fn token_parts(value: Cbor) -> Result<(Seq<u8>, Seq<u8>), Fault> {
    match value {
        Cbor::Tag(tag, content) => if tag != TAG_CCA_TOKEN {
            Err(Fault::InvalidTokenFormat("attestation token tag"@))
        } else {
            match *content {
                Cbor::Mapping(entries) => match find_entry(entries, CCA_PLAT_TOKEN) {
                    None => Err(Fault::InvalidKey("platform token"@)),
                    Some(platform) => match find_entry(entries, CCA_REALM_DELEGATED_TOKEN) {
                        None => Err(Fault::InvalidKey("realm token"@)),
                        Some(realm) => match (platform, realm) {
                            (Cbor::Bytes(p), Cbor::Bytes(r)) => Ok((p, r)),
                            (Cbor::Bytes(_), _) => Err(
                                Fault::InvalidTokenFormat("realm token bytes"@),
                            ),
                            _ => Err(Fault::InvalidTokenFormat("platform token bytes"@)),
                        },
                    },
                },
                _ => Err(Fault::InvalidTokenFormat("attestation token map"@)),
            }
        },
        _ => Err(Fault::InvalidTokenFormat("attestation token tag"@)),
    }
}

/// The signed object that `coset` decodes from `bytes`, a tagged `COSE_Sign1`, or `None` where
/// it reports an error.
pub uninterp spec fn sign1_decoding(bytes: Seq<u8>) -> Option<SignedObjectView>;

/// The bytes that the signer of a `COSE_Sign1` signs, as `coset` encodes them: the signature
/// structure over the protected header's bytes, no external data, and the payload.
pub uninterp spec fn sig_structure(protected: Seq<u8>, payload: Seq<u8>) -> Seq<u8>;

/// The signed object that `bytes` encode: a CBOR item with the tag 18 that `coset` accepts as a
/// `COSE_Sign1`.
pub open spec fn signed_object(bytes: Seq<u8>) -> Result<SignedObjectView, Fault> {
    match cbor_decoding(bytes) {
        None => Err(Fault::Ciborium),
        Some(Cbor::Tag(tag, _)) => if tag != TAG_COSE_SIGN1 {
            Err(Fault::InvalidTag("signed object tag"@))
        } else {
            match sign1_decoding(bytes) {
                Some(signed) => Ok(signed),
                None => Err(Fault::Coset),
            }
        },
        Some(_) => Err(Fault::InvalidTag("signed object tag"@)),
    }
}

/// The two signed objects of the attestation token that `bytes` encode: the platform token,
/// then the realm token.
pub open spec fn envelope(bytes: Seq<u8>) -> Result<(SignedObjectView, SignedObjectView), Fault> {
    match cbor_decoding(bytes) {
        None => Err(Fault::Ciborium),
        Some(value) => match token_parts(value) {
            Err(e) => Err(e),
            Ok((platform, realm)) => match signed_object(platform) {
                Err(e) => Err(e),
                Ok(p) => match signed_object(realm) {
                    Err(e) => Err(e),
                    Ok(r) => Ok((p, r)),
                },
            },
        },
    }
}

/// The label that `key` stands for, if any.
pub fn key_label(key: &CborValue) -> (res: Option<u32>)
    ensures
        res == label_of(key@),
{
    match key {
        CborValue::Integer(number) => {
            if 0 <= *number && *number <= 0xffff_ffff {
                Some(*number as u32)
            } else {
                None
            }
        },
        _ => None,
    }
}

/// Finds the value of the first entry whose key stands for `label`.
pub fn lookup(entries: &Vec<(CborValue, CborValue)>, label: u32) -> (res: Option<&CborValue>)
    ensures
        match res {
            Some(value) => find_entry(entries_model(entries@), label) == Some(value@),
            None => find_entry(entries_model(entries@), label) is None,
        },
{
    let ghost model = entries_model(entries@);
    let mut at: usize = 0;
    assert(model.skip(0) =~= model);
    while at < entries.len()
        invariant
            at <= entries.len(),
            model == entries_model(entries@),
            find_entry(model, label) == find_entry(model.skip(at as int), label),
        decreases entries.len() - at,
    {
        let entry = &entries[at];
        assert(model.skip(at as int)[0] == (entry.0@, entry.1@));
        assert(model.skip(at as int).drop_first() =~= model.skip(at + 1));
        if key_label(&entry.0) == Some(label) {
            return Some(&entry.1);
        }
        at += 1;
    }
    None
}

/// Takes an attestation token apart: returns the encoded platform token, then the encoded realm
/// token.
pub fn unpack_token(value: &CborValue) -> (res: Result<(Vec<u8>, Vec<u8>), TokenError>)
    ensures
        match res {
            Ok((platform, realm)) => token_parts(value@) == Ok::<(Seq<u8>, Seq<u8>), Fault>(
                (platform@, realm@),
            ),
            Err(e) => token_parts(value@) == Err::<(Seq<u8>, Seq<u8>), Fault>(e@),
        },
{
    let content = match value {
        CborValue::Tag(tag, content) => {
            if *tag != TAG_CCA_TOKEN {
                return Err(TokenError::InvalidTokenFormat("attestation token tag"));
            }
            content
        },
        _ => { return Err(TokenError::InvalidTokenFormat("attestation token tag")); },
    };
    let entries = match &**content {
        CborValue::Mapping(entries) => entries,
        _ => {
            assert(!((**content)@ is Mapping));
            return Err(TokenError::InvalidTokenFormat("attestation token map"));
        },
    };
    proof {
        lemma_mapping_model(*entries);
    }
    let platform = match lookup(entries, CCA_PLAT_TOKEN) {
        Some(item) => item,
        None => { return Err(TokenError::InvalidKey("platform token")); },
    };
    let realm = match lookup(entries, CCA_REALM_DELEGATED_TOKEN) {
        Some(item) => item,
        None => { return Err(TokenError::InvalidKey("realm token")); },
    };
    match platform {
        CborValue::Bytes(p) => match realm {
            CborValue::Bytes(r) => Ok((p.clone(), r.clone())),
            _ => Err(TokenError::InvalidTokenFormat("realm token bytes")),
        },
        _ => Err(TokenError::InvalidTokenFormat("platform token bytes")),
    }
}

/// `coset::CoseSign1::from_tagged_slice`, its result copied field by field.
///
/// The protected header's bytes are those of the input, the algorithm is the number that the
/// protected header gives (none for a name), and an absent payload is the empty payload.
/// The contract claims that the call succeeds exactly where `sign1_decoding` is defined, and
/// then returns that object: decoding depends on the bytes alone.
#[verifier::external_body]
fn read_sign1(bytes: &[u8]) -> (res: Result<SignedObject, coset::CoseError>)
    ensures
        res is Ok <==> sign1_decoding(bytes@) is Some,
        res is Ok ==> sign1_decoding(bytes@) == Some(res->Ok_0@),
{
    let sign1 = coset::CoseSign1::from_tagged_slice(bytes)?;
    let algorithm = match sign1.protected.header.alg {
        Some(coset::Algorithm::Assigned(a)) => Some(coset::iana::EnumI64::to_i64(&a)),
        Some(coset::Algorithm::PrivateUse(number)) => Some(number),
        _ => None,
    };
    Ok(SignedObject {
        protected: sign1.protected.original_data.unwrap_or_default(),
        algorithm,
        payload: sign1.payload.unwrap_or_default(),
        signature: sign1.signature,
    })
}

/// `coset::sig_structure_data` for a `COSE_Sign1` without external data, the protected header
/// given by its encoded bytes.
#[verifier::external_body]
pub(crate) fn sig_structure_bytes(protected: &[u8], payload: &[u8]) -> (data: Vec<u8>)
    ensures
        data@ == sig_structure(protected@, payload@),
{
    let header = coset::ProtectedHeader {
        original_data: Some(protected.to_vec()),
        header: coset::Header::default(),
    };
    coset::sig_structure_data(coset::SignatureContext::CoseSign1, header, None, &[], payload)
}

/// Decodes a signed object: the bytes must hold an item with the tag 18, and be a well-formed
/// `COSE_Sign1`.
pub fn decode_signed_object(bytes: &[u8]) -> (res: Result<SignedObject, TokenError>)
    ensures
        match res {
            Ok(signed) => signed_object(bytes@) == Ok::<SignedObjectView, Fault>(signed@),
            Err(e) => signed_object(bytes@) == Err::<SignedObjectView, Fault>(e@),
        },
{
    let value = match decode(bytes) {
        Ok(value) => value,
        Err(e) => { return Err(e); },
    };
    match value {
        CborValue::Tag(tag, _) => {
            if tag != TAG_COSE_SIGN1 {
                return Err(TokenError::InvalidTag("signed object tag"));
            }
        },
        _ => { return Err(TokenError::InvalidTag("signed object tag")); },
    }
    match read_sign1(bytes) {
        Ok(signed) => Ok(signed),
        Err(e) => Err(TokenError::from(e)),
    }
}

/// Decodes the envelope of an attestation token: returns the platform token's signed object,
/// then the realm token's.
pub fn decode_envelope(bytes: &[u8]) -> (res: Result<(SignedObject, SignedObject), TokenError>)
    ensures
        match res {
            Ok((platform, realm)) => envelope(bytes@) == Ok::<
                (SignedObjectView, SignedObjectView),
                Fault,
            >((platform@, realm@)),
            Err(e) => envelope(bytes@) == Err::<(SignedObjectView, SignedObjectView), Fault>(e@),
        },
{
    let value = match decode(bytes) {
        Ok(value) => value,
        Err(e) => { return Err(e); },
    };
    let (platform_bytes, realm_bytes) = match unpack_token(&value) {
        Ok(parts) => parts,
        Err(e) => { return Err(e); },
    };
    let platform = match decode_signed_object(platform_bytes.as_slice()) {
        Ok(signed) => signed,
        Err(e) => { return Err(e); },
    };
    let realm = match decode_signed_object(realm_bytes.as_slice()) {
        Ok(signed) => signed,
        Err(e) => { return Err(e); },
    };
    Ok((platform, realm))
}

} // verus!
