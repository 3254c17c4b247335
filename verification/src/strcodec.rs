//! The string framing scheme: an unsigned 64-bit little-endian length prefix
//! holding the byte count of the payload, immediately followed by that many
//! raw UTF-8 bytes, with no terminator and no padding.

use vstd::prelude::*;
use vstd::utf8::decode_utf8;
use vstd::utf8::encode_utf8;
use vstd::utf8::encode_utf8_decode_utf8;
use vstd::utf8::encode_utf8_valid_utf8;
use vstd::utf8::valid_utf8;

use crate::le::le_decode;
use crate::le::le_encode;
use crate::le::lemma_le_round_trip;
use crate::le::pow256;

verus! {

/// The whole encoding of a string whose UTF-8 payload is `payload`: the
/// eight-byte length prefix, then the payload itself.
pub open spec fn string_frame(payload: Seq<u8>) -> Seq<u8> {
    le_encode(payload.len(), 8) + payload
}

/// The payload that a reader finds at the start of `b`: the bytes announced
/// by the length prefix, or nothing when `b` is too short for the prefix or
/// for the announced count.
pub open spec fn frame_payload(b: Seq<u8>) -> Option<Seq<u8>> {
    if b.len() >= 8 && 8 + le_decode(b.take(8)) <= b.len() {
        Some(b.subrange(8, 8 + le_decode(b.take(8)) as int))
    } else {
        None
    }
}

/// Round-trip law for the framing: whatever the payload and whatever follows
/// the frame in the stream, reading finds exactly the payload; in
/// particular, the length prefix holds the payload's byte count.
pub proof fn lemma_frame_round_trip(payload: Seq<u8>, rest: Seq<u8>)
    requires
        payload.len() < pow256(8),
    ensures
        le_decode(string_frame(payload).take(8)) == payload.len(),
        frame_payload(string_frame(payload) + rest) == Some(payload),
{
    lemma_le_round_trip(payload.len(), 8);
    let b = string_frame(payload) + rest;
    assert(b.take(8) =~= le_encode(payload.len(), 8));
    assert(b.subrange(8, 8 + payload.len() as int) =~= payload);
    assert(string_frame(payload).take(8) =~= le_encode(payload.len(), 8));
}

/// Round-trip law for strings: the frame of a character sequence `s` carries
/// the UTF-8 encoding of `s`, that payload is valid UTF-8, and decoding it
/// gives `s` back — whatever follows the frame in the stream.
pub proof fn lemma_string_round_trip(s: Seq<char>, rest: Seq<u8>)
    requires
        encode_utf8(s).len() < pow256(8),
    ensures
        frame_payload(string_frame(encode_utf8(s)) + rest) == Some(encode_utf8(s)),
        valid_utf8(encode_utf8(s)),
        decode_utf8(encode_utf8(s)) == s,
{
    lemma_frame_round_trip(encode_utf8(s), rest);
    encode_utf8_valid_utf8(s);
    encode_utf8_decode_utf8(s);
}

/// Relies on `String::from_utf8`: it succeeds exactly on valid UTF-8 input,
/// and the string it returns holds those very bytes.
#[verifier::external_body]
pub(crate) fn vec_to_string(bytes: Vec<u8>) -> (r: Option<String>)
    ensures
        (r is Some) == valid_utf8(bytes@),
        r matches Some(s) ==> encode_utf8(s@) == bytes@,
{
    match String::from_utf8(bytes) {
        Ok(s) => Some(s),
        Err(_) => None,
    }
}

} // verus!
