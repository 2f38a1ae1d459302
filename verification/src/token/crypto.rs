//! The digests and signature checks that verification rests on.

use vstd::prelude::*;
use ecdsa::signature::Verifier;
use sha2::Digest;
use crate::token::error::same_text;

verus! {

/// A hash algorithm that a token can name.
#[derive(Debug, Clone, Copy, PartialEq, Eq, Structural)]
pub enum HashAlgorithm {
    Sha256,
    Sha384,
    Sha512,
}

/// A signature algorithm that a signed object can name.
#[derive(Debug, Clone, Copy, PartialEq, Eq, Structural)]
pub enum SigningAlgorithm {
    /// ECDSA on the curve P-256 with SHA-256.
    Es256,
    /// ECDSA on the curve P-384 with SHA-384.
    Es384,
    /// ECDSA on the curve P-521 with SHA-512.
    Es512,
}

/// The registry value of ES256.
pub const COSE_ES256: i64 = -7;

/// The registry value of ES384.
pub const COSE_ES384: i64 = -35;

/// The registry value of ES512.
pub const COSE_ES512: i64 = -36;

/// The SHA-256 digest of `data`, as `sha2` computes it.
pub uninterp spec fn sha256(data: Seq<u8>) -> Seq<u8>;

/// The SHA-384 digest of `data`, as `sha2` computes it.
pub uninterp spec fn sha384(data: Seq<u8>) -> Seq<u8>;

/// The SHA-512 digest of `data`, as `sha2` computes it.
pub uninterp spec fn sha512(data: Seq<u8>) -> Seq<u8>;

/// Whether `p256` accepts `signature`, the two scalars side by side, as an ECDSA signature of
/// `message` under the SEC1-encoded public key `key`.
pub uninterp spec fn p256_accepts(key: Seq<u8>, message: Seq<u8>, signature: Seq<u8>) -> bool;

/// Whether `p384` accepts `signature`, the two scalars side by side, as an ECDSA signature of
/// `message` under the SEC1-encoded public key `key`.
pub uninterp spec fn p384_accepts(key: Seq<u8>, message: Seq<u8>, signature: Seq<u8>) -> bool;

/// Whether `p521` accepts `signature`, the two scalars side by side, as an ECDSA signature of
/// `message` under the SEC1-encoded public key `key`.
pub uninterp spec fn p521_accepts(key: Seq<u8>, message: Seq<u8>, signature: Seq<u8>) -> bool;

/// The hash algorithm that a token names by `name`.
pub open spec fn hash_algorithm_of(name: Seq<char>) -> Option<HashAlgorithm> {
    if name == "sha-256"@ {
        Some(HashAlgorithm::Sha256)
    } else if name == "sha-384"@ {
        Some(HashAlgorithm::Sha384)
    } else if name == "sha-512"@ {
        Some(HashAlgorithm::Sha512)
    } else {
        None
    }
}

/// The signature algorithm that a signed object names by `number`.
pub open spec fn signing_algorithm_of(number: Option<i64>) -> Option<SigningAlgorithm> {
    match number {
        Some(n) => if n == COSE_ES256 {
            Some(SigningAlgorithm::Es256)
        } else if n == COSE_ES384 {
            Some(SigningAlgorithm::Es384)
        } else if n == COSE_ES512 {
            Some(SigningAlgorithm::Es512)
        } else {
            None
        },
        None => None,
    }
}

/// The digest of `data` under `algorithm`.
pub open spec fn digest_of(algorithm: HashAlgorithm, data: Seq<u8>) -> Seq<u8> {
    match algorithm {
        HashAlgorithm::Sha256 => sha256(data),
        HashAlgorithm::Sha384 => sha384(data),
        HashAlgorithm::Sha512 => sha512(data),
    }
}

/// Whether `signature` is accepted as a signature of `message` under `key` with `algorithm`.
pub open spec fn signature_accepted(
    algorithm: SigningAlgorithm,
    key: Seq<u8>,
    message: Seq<u8>,
    signature: Seq<u8>,
) -> bool {
    match algorithm {
        SigningAlgorithm::Es256 => p256_accepts(key, message, signature),
        SigningAlgorithm::Es384 => p384_accepts(key, message, signature),
        SigningAlgorithm::Es512 => p521_accepts(key, message, signature),
    }
}

/// `sha2::Sha256::digest`, its output copied into a vector.
#[verifier::external_body]
fn sha256_digest(data: &[u8]) -> (digest: Vec<u8>)
    ensures
        digest@ == sha256(data@),
{
    sha2::Sha256::digest(data).to_vec()
}

/// `sha2::Sha384::digest`, its output copied into a vector.
#[verifier::external_body]
fn sha384_digest(data: &[u8]) -> (digest: Vec<u8>)
    ensures
        digest@ == sha384(data@),
{
    sha2::Sha384::digest(data).to_vec()
}

/// `sha2::Sha512::digest`, its output copied into a vector.
#[verifier::external_body]
fn sha512_digest(data: &[u8]) -> (digest: Vec<u8>)
    ensures
        digest@ == sha512(data@),
{
    sha2::Sha512::digest(data).to_vec()
}

/// `verify` of `ecdsa::VerifyingKey` on the curve P-256, the key read by `from_sec1_bytes` and
/// the signature by `ecdsa::Signature::from_slice`.
///
/// The contract claims that the call succeeds exactly where `p256_accepts` holds: the outcome
/// depends on the three byte strings alone. A key or a signature that cannot be read is an
/// error as well.
#[verifier::external_body]
fn p256_verify(key: &[u8], message: &[u8], signature: &[u8]) -> (res: Result<(), ecdsa::Error>)
    ensures
        res is Ok <==> p256_accepts(key@, message@, signature@),
{
    let key = ecdsa::VerifyingKey::<p256::NistP256>::from_sec1_bytes(key)?;
    let signature = ecdsa::Signature::<p256::NistP256>::from_slice(signature)?;
    key.verify(message, &signature)
}

/// `verify` of `ecdsa::VerifyingKey` on the curve P-384, the key read by `from_sec1_bytes` and
/// the signature by `ecdsa::Signature::from_slice`.
///
/// The contract claims that the call succeeds exactly where `p384_accepts` holds: the outcome
/// depends on the three byte strings alone. A key or a signature that cannot be read is an
/// error as well.
#[verifier::external_body]
fn p384_verify(key: &[u8], message: &[u8], signature: &[u8]) -> (res: Result<(), ecdsa::Error>)
    ensures
        res is Ok <==> p384_accepts(key@, message@, signature@),
{
    let key = ecdsa::VerifyingKey::<p384::NistP384>::from_sec1_bytes(key)?;
    let signature = ecdsa::Signature::<p384::NistP384>::from_slice(signature)?;
    key.verify(message, &signature)
}

/// `verify` of `p521::ecdsa::VerifyingKey`, the key read by `from_sec1_bytes` and the signature
/// by `ecdsa::Signature::from_slice`.
///
/// The contract claims that the call succeeds exactly where `p521_accepts` holds: the outcome
/// depends on the three byte strings alone. A key or a signature that cannot be read is an
/// error as well.
#[verifier::external_body]
fn p521_verify(key: &[u8], message: &[u8], signature: &[u8]) -> (res: Result<(), ecdsa::Error>)
    ensures
        res is Ok <==> p521_accepts(key@, message@, signature@),
{
    let key = p521::ecdsa::VerifyingKey::from_sec1_bytes(key)?;
    let signature = ecdsa::Signature::<p521::NistP521>::from_slice(signature)?;
    key.verify(message, &signature)
}

/// The hash algorithm that `name` stands for: one of `sha-256`, `sha-384`, `sha-512`.
pub fn hash_algorithm(name: &str) -> (res: Option<HashAlgorithm>)
    ensures
        res == hash_algorithm_of(name@),
{
    if same_text(name, "sha-256") {
        Some(HashAlgorithm::Sha256)
    } else if same_text(name, "sha-384") {
        Some(HashAlgorithm::Sha384)
    } else if same_text(name, "sha-512") {
        Some(HashAlgorithm::Sha512)
    } else {
        None
    }
}

/// The signature algorithm that a signed object's algorithm number stands for: ES256, ES384 or
/// ES512.
pub fn signing_algorithm(number: Option<i64>) -> (res: Option<SigningAlgorithm>)
    ensures
        res == signing_algorithm_of(number),
{
    match number {
        Some(n) => {
            if n == COSE_ES256 {
                Some(SigningAlgorithm::Es256)
            } else if n == COSE_ES384 {
                Some(SigningAlgorithm::Es384)
            } else if n == COSE_ES512 {
                Some(SigningAlgorithm::Es512)
            } else {
                None
            }
        },
        None => None,
    }
}

/// Computes the digest of `data` under `algorithm`.
pub fn digest(algorithm: HashAlgorithm, data: &[u8]) -> (res: Vec<u8>)
    ensures
        res@ == digest_of(algorithm, data@),
{
    match algorithm {
        HashAlgorithm::Sha256 => sha256_digest(data),
        HashAlgorithm::Sha384 => sha384_digest(data),
        HashAlgorithm::Sha512 => sha512_digest(data),
    }
}

/// Checks `signature` as a signature of `message` under `key` with `algorithm`.
pub fn check_signature(
    algorithm: SigningAlgorithm,
    key: &[u8],
    message: &[u8],
    signature: &[u8],
) -> (res: Result<(), ecdsa::Error>)
    ensures
        res is Ok <==> signature_accepted(algorithm, key@, message@, signature@),
{
    match algorithm {
        SigningAlgorithm::Es256 => p256_verify(key, message, signature),
        SigningAlgorithm::Es384 => p384_verify(key, message, signature),
        SigningAlgorithm::Es512 => p521_verify(key, message, signature),
    }
}

/// Whether two byte strings are equal.
pub fn same_bytes(a: &[u8], b: &[u8]) -> (same: bool)
    ensures
        same == (a@ == b@),
{
    if a.len() != b.len() {
        return false;
    }
    let mut at: usize = 0;
    while at < a.len()
        invariant
            at <= a.len(),
            a.len() == b.len(),
            forall|j: int| 0 <= j < at ==> a@[j] == b@[j],
        decreases a.len() - at,
    {
        if a[at] != b[at] {
            return false;
        }
        at += 1;
    }
    assert(a@ =~= b@);
    true
}

} // verus!
