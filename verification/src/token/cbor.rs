//! CBOR items as plain values, and their decoding.

use vstd::prelude::*;
use crate::token::error::{Fault, TokenError};

verus! {

/// A decoded CBOR item.
///
/// Integers, byte strings, text strings, booleans, tagged items, arrays and
/// maps keep their content; every other item (a float, null) is `Other`.
/// A map keeps its entries in the order of the encoding, duplicates included.
#[derive(Debug, PartialEq)]
pub enum CborValue {
    Integer(i128),
    Bytes(Vec<u8>),
    Text(String),
    Bool(bool),
    Tag(u64, Box<CborValue>),
    Array(Vec<CborValue>),
    Mapping(Vec<(CborValue, CborValue)>),
    Other,
}

/// A CBOR item as mathematics: what a `CborValue` stands for.
pub enum Cbor {
    Integer(int),
    Bytes(Seq<u8>),
    Text(Seq<char>),
    Bool(bool),
    Tag(u64, Box<Cbor>),
    Array(Seq<Cbor>),
    Mapping(Seq<(Cbor, Cbor)>),
    Other,
}

/// The item that a decoded value stands for.
pub open spec fn cbor_model(value: CborValue) -> Cbor
    decreases value,
{
    match value {
        CborValue::Integer(number) => Cbor::Integer(number as int),
        CborValue::Bytes(bytes) => Cbor::Bytes(bytes@),
        CborValue::Text(text) => Cbor::Text(text@),
        CborValue::Bool(b) => Cbor::Bool(b),
        CborValue::Tag(tag, content) => Cbor::Tag(tag, Box::new(cbor_model(*content))),
        CborValue::Array(items) => Cbor::Array(
            Seq::new(
                items@.len(),
                |i: int|
                    if 0 <= i < items@.len() {
                        cbor_model(items@[i])
                    } else {
                        Cbor::Other
                    },
            ),
        ),
        CborValue::Mapping(entries) => Cbor::Mapping(
            Seq::new(
                entries@.len(),
                |i: int|
                    if 0 <= i < entries@.len() {
                        (cbor_model(entries@[i].0), cbor_model(entries@[i].1))
                    } else {
                        (Cbor::Other, Cbor::Other)
                    },
            ),
        ),
        CborValue::Other => Cbor::Other,
    }
}

impl View for CborValue {
    type V = Cbor;

    open spec fn view(&self) -> Cbor {
        cbor_model(*self)
    }
}

/// The items that decoded values stand for, one by one.
pub open spec fn items_model(items: Seq<CborValue>) -> Seq<Cbor> {
    Seq::new(items.len(), |i: int| items[i]@)
}

/// The entries that decoded entries stand for, one by one.
pub open spec fn entries_model(entries: Seq<(CborValue, CborValue)>) -> Seq<(Cbor, Cbor)> {
    Seq::new(entries.len(), |i: int| (entries[i].0@, entries[i].1@))
}

/// A decoded array stands for the array of what its items stand for.
pub proof fn lemma_array_model(items: Vec<CborValue>)
    ensures
        CborValue::Array(items)@ == Cbor::Array(items_model(items@)),
{
    assert(CborValue::Array(items)@->Array_0 =~= items_model(items@));
}

/// A decoded map stands for the map of what its entries stand for.
pub proof fn lemma_mapping_model(entries: Vec<(CborValue, CborValue)>)
    ensures
        CborValue::Mapping(entries)@ == Cbor::Mapping(entries_model(entries@)),
{
    assert(CborValue::Mapping(entries)@->Mapping_0 =~= entries_model(entries@));
}

/// The dynamic CBOR item of `ciborium`; read only by `lift`.
#[verifier::external_type_specification]
#[verifier::external_body]
pub struct ExValue(ciborium::Value);

/// The item that `ciborium` decodes from the start of `bytes`, or `None`
/// where it reports an error.
pub uninterp spec fn cbor_decoding(bytes: Seq<u8>) -> Option<Cbor>;

/// Copies an item of `ciborium` into a `CborValue`, variant by variant.
#[verifier::external_body]
fn lift(value: &ciborium::Value) -> (out: CborValue) {
    match value {
        ciborium::Value::Integer(i) => CborValue::Integer(i128::from(*i)),
        ciborium::Value::Bytes(b) => CborValue::Bytes(b.clone()),
        ciborium::Value::Text(t) => CborValue::Text(t.clone()),
        ciborium::Value::Bool(b) => CborValue::Bool(*b),
        ciborium::Value::Tag(t, inner) => CborValue::Tag(*t, Box::new(lift(inner))),
        ciborium::Value::Array(items) => CborValue::Array(items.iter().map(lift).collect()),
        ciborium::Value::Map(entries) => CborValue::Mapping(
            entries.iter().map(|e| (lift(&e.0), lift(&e.1))).collect(),
        ),
        _ => CborValue::Other,
    }
}

/// `ciborium::de::from_reader` on a byte slice, read as a dynamic item.
///
/// The contract claims that the call succeeds exactly where `cbor_decoding`
/// is defined, and then returns that item: decoding depends on the bytes alone.
#[verifier::external_body]
fn read_item(bytes: &[u8]) -> (res: Result<CborValue, ciborium::de::Error<std::io::Error>>)
    ensures
        res is Ok <==> cbor_decoding(bytes@) is Some,
        res is Ok ==> cbor_decoding(bytes@) == Some(res->Ok_0@),
{
    let value: ciborium::Value = ciborium::de::from_reader(bytes)?;
    Ok(lift(&value))
}

/// What `decode` returns on `bytes`.
pub open spec fn decode_spec(bytes: Seq<u8>) -> Result<Cbor, Fault> {
    match cbor_decoding(bytes) {
        Some(v) => Ok(v),
        None => Err(Fault::Ciborium),
    }
}

/// Decodes the CBOR item at the start of `bytes`.
pub fn decode(bytes: &[u8]) -> (res: Result<CborValue, TokenError>)
    ensures
        match res {
            Ok(v) => decode_spec(bytes@) == Ok::<Cbor, Fault>(v@),
            Err(e) => decode_spec(bytes@) == Err::<Cbor, Fault>(e@),
        },
{
    match read_item(bytes) {
        Ok(v) => Ok(v),
        Err(e) => Err(TokenError::from(e)),
    }
}

} // verus!
