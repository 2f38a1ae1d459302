//! The errors that decoding and verification report.

use vstd::prelude::*;
use vstd::std_specs::convert::FromSpecImpl;

verus! {

/// The decoding error of `ciborium`; carried through unread.
#[verifier::external_type_specification]
#[verifier::external_body]
#[verifier::reject_recursive_types(T)]
pub struct ExCborDecodeError<T>(ciborium::de::Error<T>);

/// The I/O error of std, which parameterises the decoding error of `ciborium`
/// when the input is a byte slice; carried through unread.
#[verifier::external_type_specification]
#[verifier::external_body]
pub struct ExIoError(std::io::Error);

/// The error of `coset`; carried through unread.
#[verifier::external_type_specification]
#[verifier::external_body]
pub struct ExCoseError(coset::CoseError);

/// The error of `ecdsa`; carried through unread.
#[verifier::external_type_specification]
#[verifier::external_body]
pub struct ExSignatureError(ecdsa::Error);

/// What went wrong while a token was decoded or verified.
#[derive(Debug)]
pub enum TokenError {
    /// A required key is absent from a map.
    InvalidKey(&'static str),
    /// A tagged item carries another tag than the expected one.
    InvalidTag(&'static str),
    /// The token is not laid out as an attestation token.
    InvalidTokenFormat(&'static str),
    /// The token asks for something this library does not provide.
    NotImplemented(&'static str),
    /// A signature or the key binding does not hold; the text names the stage.
    VerificationFailed(&'static str),
    /// An algorithm is unknown or unsupported; the number is its registry value.
    InvalidAlgorithm(Option<i64>),
    /// The bytes are not well-formed CBOR.
    Ciborium(ciborium::de::Error<std::io::Error>),
    /// The bytes are not a well-formed signed object.
    Coset(coset::CoseError),
    /// An error of the signature library. Verification itself reports a signature that is not
    /// accepted as `VerificationFailed`, with the stage; this kind is for callers that hold such
    /// an error of their own.
    Ecdsa(ecdsa::Error),
    /// A mandatory claim is absent; the number is its label.
    MissingMandatoryClaim(u32),
    /// A claim holds a value of another kind than its schema declares.
    ClaimDataMisMatchType,
}

/// An error without what the outside libraries attached to it: its kind and its context.
pub enum Fault {
    InvalidKey(Seq<char>),
    InvalidTag(Seq<char>),
    InvalidTokenFormat(Seq<char>),
    NotImplemented(Seq<char>),
    VerificationFailed(Seq<char>),
    InvalidAlgorithm(Option<i64>),
    Ciborium,
    Coset,
    Ecdsa,
    MissingMandatoryClaim(u32),
    ClaimDataMisMatchType,
}

impl View for TokenError {
    type V = Fault;

    open spec fn view(&self) -> Fault {
        match *self {
            TokenError::InvalidKey(s) => Fault::InvalidKey(s@),
            TokenError::InvalidTag(s) => Fault::InvalidTag(s@),
            TokenError::InvalidTokenFormat(s) => Fault::InvalidTokenFormat(s@),
            TokenError::NotImplemented(s) => Fault::NotImplemented(s@),
            TokenError::VerificationFailed(s) => Fault::VerificationFailed(s@),
            TokenError::InvalidAlgorithm(a) => Fault::InvalidAlgorithm(a),
            TokenError::Ciborium(_) => Fault::Ciborium,
            TokenError::Coset(_) => Fault::Coset,
            TokenError::Ecdsa(_) => Fault::Ecdsa,
            TokenError::MissingMandatoryClaim(l) => Fault::MissingMandatoryClaim(l),
            TokenError::ClaimDataMisMatchType => Fault::ClaimDataMisMatchType,
        }
    }
}

/// `str::eq`: whether two texts are the same sequence of characters.
#[verifier::external_body]
pub(crate) fn same_text(a: &str, b: &str) -> (same: bool)
    ensures
        same == (a@ == b@),
{
    a == b
}

impl PartialEq for TokenError {
    /// Two errors are equal where they are of the same kind and carry the same context. What an
    /// outside library attached to an error does not count.
    fn eq(&self, other: &Self) -> (res: bool) {
        match self {
            TokenError::InvalidKey(s) => match other {
                TokenError::InvalidKey(e) => same_text(s, e),
                _ => false,
            },
            TokenError::InvalidTag(s) => match other {
                TokenError::InvalidTag(e) => same_text(s, e),
                _ => false,
            },
            TokenError::InvalidTokenFormat(s) => match other {
                TokenError::InvalidTokenFormat(e) => same_text(s, e),
                _ => false,
            },
            TokenError::NotImplemented(s) => match other {
                TokenError::NotImplemented(e) => same_text(s, e),
                _ => false,
            },
            TokenError::VerificationFailed(s) => match other {
                TokenError::VerificationFailed(e) => same_text(s, e),
                _ => false,
            },
            TokenError::InvalidAlgorithm(s) => match other {
                TokenError::InvalidAlgorithm(e) => match s {
                    Some(a) => match e {
                        Some(b) => *a == *b,
                        None => false,
                    },
                    None => e.is_none(),
                },
                _ => false,
            },
            TokenError::Ciborium(_) => match other {
                TokenError::Ciborium(_) => true,
                _ => false,
            },
            TokenError::Coset(_) => match other {
                TokenError::Coset(_) => true,
                _ => false,
            },
            TokenError::Ecdsa(_) => match other {
                TokenError::Ecdsa(_) => true,
                _ => false,
            },
            TokenError::MissingMandatoryClaim(s) => match other {
                TokenError::MissingMandatoryClaim(e) => *s == *e,
                _ => false,
            },
            TokenError::ClaimDataMisMatchType => match other {
                TokenError::ClaimDataMisMatchType => true,
                _ => false,
            },
        }
    }
}

impl vstd::std_specs::cmp::PartialEqSpecImpl for TokenError {
    open spec fn obeys_eq_spec() -> bool {
        true
    }

    open spec fn eq_spec(&self, other: &Self) -> bool {
        self@ == other@
    }
}

impl From<ciborium::de::Error<std::io::Error>> for TokenError {
    fn from(value: ciborium::de::Error<std::io::Error>) -> (res: Self) {
        TokenError::Ciborium(value)
    }
}

impl FromSpecImpl<ciborium::de::Error<std::io::Error>> for TokenError {
    open spec fn obeys_from_spec() -> bool {
        true
    }

    open spec fn from_spec(value: ciborium::de::Error<std::io::Error>) -> Self {
        TokenError::Ciborium(value)
    }
}

impl From<coset::CoseError> for TokenError {
    fn from(value: coset::CoseError) -> (res: Self) {
        TokenError::Coset(value)
    }
}

impl FromSpecImpl<coset::CoseError> for TokenError {
    open spec fn obeys_from_spec() -> bool {
        true
    }

    open spec fn from_spec(value: coset::CoseError) -> Self {
        TokenError::Coset(value)
    }
}

impl From<ecdsa::Error> for TokenError {
    fn from(value: ecdsa::Error) -> (res: Self) {
        TokenError::Ecdsa(value)
    }
}

impl FromSpecImpl<ecdsa::Error> for TokenError {
    open spec fn obeys_from_spec() -> bool {
        true
    }

    open spec fn from_spec(value: ecdsa::Error) -> Self {
        TokenError::Ecdsa(value)
    }
}

} // verus!
