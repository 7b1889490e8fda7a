//! Marshaling of argument and return values through serde_cbor.
//!
//! Every operation argument and every return value crosses the wire as a
//! CBOR payload. The text and list encodings are outside code and are given
//! names (uninterpreted functions of the encoded value alone); the unsigned
//! integer encoding is short enough to state exactly, so it is. The
//! wrappers state how encoding and decoding relate through those forms:
//! encoding a value yields its byte form — and always succeeds, because the
//! serializer writes into a growable vector — while decoding the byte form
//! of any value yields that value back.

use vstd::prelude::*;

use crate::error::Error;

verus! {

/// The CBOR encoding of a text string; a function of its characters alone.
pub uninterp spec fn cbor_of_str(s: Seq<char>) -> Seq<u8>;

/// The CBOR encoding of a list of text strings; a function of the element
/// characters alone.
pub uninterp spec fn cbor_of_str_list(l: Seq<Seq<char>>) -> Seq<u8>;

/// The CBOR encoding of an unsigned integer: a major-type-0 header and the
/// value in the smallest width that holds it, big-endian.
pub open spec fn cbor_of_uint(n: u64) -> Seq<u8> {
    if n <= 0x17 {
        seq![n as u8]
    } else if n <= 0xff {
        seq![0x18u8, n as u8]
    } else if n <= 0xffff {
        seq![0x19u8, (n >> 8) as u8, n as u8]
    } else if n <= 0xffff_ffff {
        seq![0x1au8, (n >> 24) as u8, (n >> 16) as u8, (n >> 8) as u8, n as u8]
    } else {
        seq![
            0x1bu8,
            (n >> 56) as u8,
            (n >> 48) as u8,
            (n >> 40) as u8,
            (n >> 32) as u8,
            (n >> 24) as u8,
            (n >> 16) as u8,
            (n >> 8) as u8,
            n as u8,
        ]
    }
}

/// The integer encoding is at most nine bytes, so it always fits a frame.
pub proof fn lemma_cbor_of_uint_len(n: u64)
    ensures
        1 <= cbor_of_uint(n).len() <= 9,
{
}

/// The decoder outcome `r` on input `b` is faithful to the string
/// encoding: if `b` is the encoding of some string, `r` is exactly that
/// string.
pub open spec fn str_decode_ok(b: Seq<u8>, r: Result<String, Error>) -> bool {
    forall|s: Seq<char>| b == cbor_of_str(s) ==> (r matches Ok(v) && v@ == s)
}

/// The decoder outcome `r` on input `b` is faithful to the integer
/// encoding: if `b` is the encoding of some integer, `r` is exactly that
/// integer.
pub open spec fn usize_decode_ok(b: Seq<u8>, r: Result<usize, Error>) -> bool {
    forall|n: usize| b == #[trigger] cbor_of_uint(n as u64) ==> (r matches Ok(v) && v == n)
}

/// The decoder outcome `r` on input `b` is faithful to the string-list
/// encoding: if `b` is the encoding of some list, `r` is exactly that
/// list.
pub open spec fn str_list_decode_ok(b: Seq<u8>, r: Result<Vec<String>, Error>) -> bool {
    forall|l: Seq<Seq<char>>| b == cbor_of_str_list(l) ==> (r matches Ok(v) && v.deep_view() == l)
}

/// Relies on serde_cbor::to_vec with a text string: the serializer emits a
/// CBOR text item determined by the string's characters alone, and writing
/// into a vector cannot fail.
#[verifier::external_body]
pub(crate) fn encode_str(s: &str) -> (r: Result<Vec<u8>, Error>)
    ensures
        r is Ok,
        r matches Ok(v) ==> v@ == cbor_of_str(s@),
{
    match serde_cbor::to_vec(&s) {
        Ok(v) => Ok(v),
        Err(e) => Err(Error::Serialize(e.to_string())),
    }
}

/// Relies on serde_cbor::from_slice with a text string: deserializing is
/// the inverse of serializing, so the encoding of any string decodes back
/// to exactly that string.
#[verifier::external_body]
pub(crate) fn decode_str(b: &[u8]) -> (r: Result<String, Error>)
    ensures
        str_decode_ok(b@, r),
        r matches Err(e) ==> e matches Error::Serialize(_),
{
    match serde_cbor::from_slice::<String>(b) {
        Ok(v) => Ok(v),
        Err(e) => Err(Error::Serialize(e.to_string())),
    }
}

/// Relies on serde_cbor::to_vec with an unsigned integer: the serializer
/// emits the minimal-width major-type-0 item stated by `cbor_of_uint`, and
/// writing into a vector cannot fail.
#[verifier::external_body]
pub(crate) fn encode_usize(n: usize) -> (r: Result<Vec<u8>, Error>)
    ensures
        r is Ok,
        r matches Ok(v) ==> v@ == cbor_of_uint(n as u64),
{
    match serde_cbor::to_vec(&n) {
        Ok(v) => Ok(v),
        Err(e) => Err(Error::Serialize(e.to_string())),
    }
}

/// Relies on serde_cbor::from_slice with an unsigned integer: deserializing
/// is the inverse of serializing.
#[verifier::external_body]
pub(crate) fn decode_usize(b: &[u8]) -> (r: Result<usize, Error>)
    ensures
        usize_decode_ok(b@, r),
        r matches Err(e) ==> e matches Error::Serialize(_),
{
    match serde_cbor::from_slice::<usize>(b) {
        Ok(v) => Ok(v),
        Err(e) => Err(Error::Serialize(e.to_string())),
    }
}

/// Relies on serde_cbor::to_vec with a vector of strings: the serializer
/// emits a definite-length CBOR array determined by the element strings
/// alone, and writing into a vector cannot fail.
#[verifier::external_body]
pub(crate) fn encode_str_list(l: &Vec<String>) -> (r: Result<Vec<u8>, Error>)
    ensures
        r is Ok,
        r matches Ok(v) ==> v@ == cbor_of_str_list(l.deep_view()),
{
    match serde_cbor::to_vec(l) {
        Ok(v) => Ok(v),
        Err(e) => Err(Error::Serialize(e.to_string())),
    }
}

/// Relies on serde_cbor::from_slice with a vector of strings: deserializing
/// is the inverse of serializing.
#[verifier::external_body]
pub(crate) fn decode_str_list(b: &[u8]) -> (r: Result<Vec<String>, Error>)
    ensures
        str_list_decode_ok(b@, r),
        r matches Err(e) ==> e matches Error::Serialize(_),
{
    match serde_cbor::from_slice::<Vec<String>>(b) {
        Ok(v) => Ok(v),
        Err(e) => Err(Error::Serialize(e.to_string())),
    }
}

/// Relies on serde_cbor::to_vec with unit: the serializer emits the single
/// CBOR null byte 0xf6, and writing into a vector cannot fail.
#[verifier::external_body]
pub(crate) fn encode_unit() -> (r: Result<Vec<u8>, Error>)
    ensures
        r is Ok,
        r matches Ok(v) ==> v@ == seq![0xf6u8],
{
    match serde_cbor::to_vec(&()) {
        Ok(v) => Ok(v),
        Err(e) => Err(Error::Serialize(e.to_string())),
    }
}

/// Relies on serde_cbor::from_slice with unit: the single CBOR null byte
/// 0xf6 decodes to unit.
#[verifier::external_body]
pub(crate) fn decode_unit(b: &[u8]) -> (r: Result<(), Error>)
    ensures
        b@ == seq![0xf6u8] ==> r is Ok,
        r matches Err(e) ==> e matches Error::Serialize(_),
{
    match serde_cbor::from_slice::<()>(b) {
        Ok(v) => Ok(v),
        Err(e) => Err(Error::Serialize(e.to_string())),
    }
}

} // verus!
