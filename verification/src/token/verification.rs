//! Verification of an attestation: the platform's signature, the binding of the realm's key to
//! the platform token, and the realm's signature.

use vstd::prelude::*;
use crate::token::{
    AttestationClaims, AttestationView, CCA_PLAT_CHALLENGE, CCA_PLAT_HASH_ALGO_ID,
    CCA_REALM_PUB_KEY, SignedObject, SignedObjectView,
};
use crate::token::cbor::cbor_decoding;
use crate::token::crypto::{
    check_signature, digest, digest_of, hash_algorithm, hash_algorithm_of, same_bytes,
    signature_accepted, signing_algorithm, signing_algorithm_of,
};
use crate::token::envelope::{envelope, sig_structure, sig_structure_bytes};
use crate::token::error::{Fault, TokenError};
use crate::token::extractor::{
    attestation, lemma_platform_token_complete, lemma_realm_token_complete, parse_token,
    platform_token, realm_token,
};
use crate::token::parser::{bstr_claim, get_bstr_claim, get_text_claim, or_fault, text_claim};

verus! {

/// Why a signed object is not accepted under `key`: its algorithm is none of the supported
/// ones, or the signature over the signed bytes is not accepted at `stage`.
pub open spec fn signature_fault(signed: SignedObjectView, key: Seq<u8>, stage: Seq<char>)
    -> Option<Fault> {
    match signing_algorithm_of(signed.algorithm) {
        None => Some(Fault::InvalidAlgorithm(signed.algorithm)),
        Some(algorithm) => if signature_accepted(
            algorithm,
            key,
            sig_structure(signed.protected, signed.payload),
            signed.signature,
        ) {
            None
        } else {
            Some(Fault::VerificationFailed(stage))
        },
    }
}

/// Why the realm's key is not bound to the platform token.
///
/// The platform token names a hash algorithm and the realm token holds the realm's public key;
/// the platform token's challenge must be the digest of that key. The first failure counts, in
/// this order: the hash algorithm claim, the algorithm's name, the public key claim, the
/// challenge claim, the comparison.
pub open spec fn binding_fault(attestation: AttestationView) -> Option<Fault> {
    match text_claim(attestation.platform_claims.token_claims, CCA_PLAT_HASH_ALGO_ID) {
        Err(e) => Some(e),
        Ok(name) => match hash_algorithm_of(name) {
            None => Some(Fault::InvalidAlgorithm(None)),
            Some(algorithm) => match bstr_claim(
                attestation.realm_claims.token_claims,
                CCA_REALM_PUB_KEY,
            ) {
                Err(e) => Some(e),
                Ok(key) => match bstr_claim(
                    attestation.platform_claims.token_claims,
                    CCA_PLAT_CHALLENGE,
                ) {
                    Err(e) => Some(e),
                    Ok(challenge) => if digest_of(algorithm, key) == challenge {
                        None
                    } else {
                        Some(Fault::VerificationFailed("key-binding"@))
                    },
                },
            },
        },
    }
}

/// Whether the realm's key is bound to the platform token: the platform token names a hash
/// algorithm, and its challenge is the digest of the realm's public key under that algorithm.
pub open spec fn key_bound(attestation: AttestationView) -> bool {
    &&& text_claim(attestation.platform_claims.token_claims, CCA_PLAT_HASH_ALGO_ID) is Ok
    &&& hash_algorithm_of(
        text_claim(attestation.platform_claims.token_claims, CCA_PLAT_HASH_ALGO_ID)->Ok_0,
    ) is Some
    &&& bstr_claim(attestation.realm_claims.token_claims, CCA_REALM_PUB_KEY) is Ok
    &&& bstr_claim(attestation.platform_claims.token_claims, CCA_PLAT_CHALLENGE) is Ok
    &&& digest_of(
        hash_algorithm_of(
            text_claim(attestation.platform_claims.token_claims, CCA_PLAT_HASH_ALGO_ID)->Ok_0,
        )->Some_0,
        bstr_claim(attestation.realm_claims.token_claims, CCA_REALM_PUB_KEY)->Ok_0,
    ) == bstr_claim(attestation.platform_claims.token_claims, CCA_PLAT_CHALLENGE)->Ok_0
}

/// The realm's public key as the realm token holds it.
pub open spec fn realm_key(attestation: AttestationView) -> Seq<u8> {
    bstr_claim(attestation.realm_claims.token_claims, CCA_REALM_PUB_KEY)->Ok_0
}

/// Why an attestation is not accepted under the platform's public key: the first failure of the
/// platform's signature, the key binding, and the realm's signature under the realm's key.
pub open spec fn verification_fault(attestation: AttestationView, platform_key: Seq<u8>) -> Option<
    Fault,
> {
    or_fault(
        signature_fault(attestation.platform_claims.cose_sign1, platform_key, "platform"@),
        or_fault(
            binding_fault(attestation),
            signature_fault(attestation.realm_claims.cose_sign1, realm_key(attestation), "realm"@),
        ),
    )
}

/// The attestation that `bytes` hold, accepted under the platform's public key.
pub open spec fn verified_attestation(bytes: Seq<u8>, platform_key: Seq<u8>) -> Result<
    AttestationView,
    Fault,
> {
    match attestation(bytes) {
        Err(e) => Err(e),
        Ok(parsed) => match verification_fault(parsed, platform_key) {
            Some(e) => Err(e),
            None => Ok(parsed),
        },
    }
}

/// Turns the outcome of a signature check into the verdict of `stage`.
pub fn signature_verdict(outcome: Result<(), ecdsa::Error>, stage: &'static str) -> (res: Result<
    (),
    TokenError,
>)
    ensures
        outcome is Ok ==> res is Ok,
        outcome is Err ==> res is Err && res->Err_0@ == Fault::VerificationFailed(stage@),
{
    match outcome {
        Ok(_) => Ok(()),
        Err(_) => Err(TokenError::VerificationFailed(stage)),
    }
}

/// Compares the digest of the realm's key with the platform's challenge.
pub fn binding_verdict(digest: &[u8], challenge: &[u8]) -> (res: Result<(), TokenError>)
    ensures
        digest@ == challenge@ ==> res is Ok,
        digest@ != challenge@ ==> res is Err && res->Err_0@ == Fault::VerificationFailed(
            "key-binding"@,
        ),
{
    if same_bytes(digest, challenge) {
        Ok(())
    } else {
        Err(TokenError::VerificationFailed("key-binding"))
    }
}

/// Checks the signature of a signed object under `key`; `stage` names the check in the error.
pub fn verify_signed_object(signed: &SignedObject, key: &[u8], stage: &'static str) -> (res:
    Result<(), TokenError>)
    ensures
        match res {
            Ok(_) => signature_fault(signed@, key@, stage@) is None,
            Err(e) => signature_fault(signed@, key@, stage@) == Some(e@),
        },
{
    let algorithm = match signing_algorithm(signed.algorithm) {
        Some(algorithm) => algorithm,
        None => { return Err(TokenError::InvalidAlgorithm(signed.algorithm)); },
    };
    let message = sig_structure_bytes(signed.protected.as_slice(), signed.payload.as_slice());
    let outcome = check_signature(
        algorithm,
        key,
        message.as_slice(),
        signed.signature.as_slice(),
    );
    signature_verdict(outcome, stage)
}

/// Checks that the platform token's challenge is the digest of the realm's public key, under
/// the hash algorithm that the platform token names.
pub fn verify_key_binding(claims: &AttestationClaims) -> (res: Result<(), TokenError>)
    ensures
        match res {
            Ok(_) => binding_fault(claims@) is None,
            Err(e) => binding_fault(claims@) == Some(e@),
        },
{
    let name = match get_text_claim(CCA_PLAT_HASH_ALGO_ID, &claims.platform_claims.token_claims) {
        Ok(name) => name,
        Err(e) => { return Err(e); },
    };
    let algorithm = match hash_algorithm(name.as_str()) {
        Some(algorithm) => algorithm,
        None => { return Err(TokenError::InvalidAlgorithm(None)); },
    };
    let key = match get_bstr_claim(CCA_REALM_PUB_KEY, &claims.realm_claims.token_claims) {
        Ok(key) => key,
        Err(e) => { return Err(e); },
    };
    let challenge = match get_bstr_claim(CCA_PLAT_CHALLENGE, &claims.platform_claims.token_claims) {
        Ok(challenge) => challenge,
        Err(e) => { return Err(e); },
    };
    let key_digest = digest(algorithm, key.as_slice());
    binding_verdict(key_digest.as_slice(), challenge.as_slice())
}

/// Verifies an attestation under the platform's public key, a SEC1-encoded point.
///
/// The three checks run in order and the first failure is returned: the platform's signature,
/// the key binding, the realm's signature under the realm's own key. Where all three hold, the
/// platform token's challenge is the digest of the realm's public key.
pub fn verify_claims(claims: &AttestationClaims, platform_key: &[u8]) -> (res: Result<
    (),
    TokenError,
>)
    ensures
        match res {
            Ok(_) => verification_fault(claims@, platform_key@) is None,
            Err(e) => verification_fault(claims@, platform_key@) == Some(e@),
        },
        res is Ok ==> key_bound(claims@),
{
    match verify_signed_object(&claims.platform_claims.cose_sign1, platform_key, "platform") {
        Ok(_) => {},
        Err(e) => { return Err(e); },
    }
    match verify_key_binding(claims) {
        Ok(_) => {},
        Err(e) => { return Err(e); },
    }
    let key = match get_bstr_claim(CCA_REALM_PUB_KEY, &claims.realm_claims.token_claims) {
        Ok(key) => key,
        Err(e) => { return Err(e); },
    };
    verify_signed_object(&claims.realm_claims.cose_sign1, key.as_slice(), "realm")
}

/// Decodes an attestation token, reads its claims and verifies it under the platform's public
/// key.
pub fn verify_token(bytes: &[u8], platform_key: &[u8]) -> (res: Result<
    AttestationClaims,
    TokenError,
>)
    ensures
        match res {
            Ok(claims) => verified_attestation(bytes@, platform_key@) == Ok::<
                AttestationView,
                Fault,
            >(claims@),
            Err(e) => verified_attestation(bytes@, platform_key@) == Err::<AttestationView, Fault>(
                e@,
            ),
        },
        res is Ok ==> res->Ok_0@.complete() && key_bound(res->Ok_0@),
{
    let claims = match parse_token(bytes) {
        Ok(claims) => claims,
        Err(e) => { return Err(e); },
    };
    match verify_claims(&claims, platform_key) {
        Ok(_) => Ok(claims),
        Err(e) => Err(e),
    }
}

/// In an attestation that is accepted, the platform token's challenge is the digest of the
/// realm's public key under the hash algorithm that the platform token names.
pub proof fn lemma_accepted_key_is_bound(attestation: AttestationView, platform_key: Seq<u8>)
    requires
        verification_fault(attestation, platform_key) is None,
    ensures
        key_bound(attestation),
{
}

/// The tokens of a parsed attestation are what their own signed objects make: reading the
/// claims again from the signed payloads that the tokens keep gives the same two tokens.
pub proof fn lemma_reparse_is_idempotent(bytes: Seq<u8>)
    requires
        attestation(bytes) is Ok,
    ensures
        platform_token(attestation(bytes)->Ok_0.platform_claims.cose_sign1) == Ok::<_, Fault>(
            attestation(bytes)->Ok_0.platform_claims,
        ),
        realm_token(attestation(bytes)->Ok_0.realm_claims.cose_sign1) == Ok::<_, Fault>(
            attestation(bytes)->Ok_0.realm_claims,
        ),
{
    let (platform_signed, realm_signed) = envelope(bytes)->Ok_0;
    lemma_platform_token_complete(platform_signed, cbor_decoding(platform_signed.payload)->Some_0);
    lemma_realm_token_complete(realm_signed, cbor_decoding(realm_signed.payload)->Some_0);
}

/// Verifying the claims that are read again from the signed payloads of a parsed attestation
/// gives the verdict of verifying the attestation itself.
pub proof fn lemma_reverify_same_verdict(bytes: Seq<u8>, platform_key: Seq<u8>)
    requires
        attestation(bytes) is Ok,
    ensures
        verification_fault(
            AttestationView {
                realm_claims: realm_token(attestation(bytes)->Ok_0.realm_claims.cose_sign1)->Ok_0,
                platform_claims: platform_token(
                    attestation(bytes)->Ok_0.platform_claims.cose_sign1,
                )->Ok_0,
            },
            platform_key,
        ) == verification_fault(attestation(bytes)->Ok_0, platform_key),
{
    lemma_reparse_is_idempotent(bytes);
}

} // verus!
