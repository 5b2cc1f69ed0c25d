//! The compact binary codec: a string is its UTF-8 length as a little-endian
//! `u64` followed by its UTF-8 bytes; a `u16` is two little-endian bytes.
//! Discovery advertisements and the user-name header of a TCP session both
//! use it.

use vstd::bytes::*;
use vstd::prelude::*;
use vstd::utf8::*;

verus! {

broadcast use vstd::utf8::group_utf8_lib;

/// The bytes of `s` as the codec writes them.
pub open spec fn framed_str(s: Seq<char>) -> Seq<u8> {
    spec_u64_to_le_bytes(encode_utf8(s).len() as u64) + encode_utf8(s)
}

/// The length that the first eight bytes of `b` declare.
pub open spec fn declared_len(b: Seq<u8>) -> int {
    spec_u64_from_le_bytes(b.subrange(0, 8)) as int
}

/// Length of the frame at the start of `b`: prefix and declared body.
pub open spec fn frame_len(b: Seq<u8>) -> int {
    8 + declared_len(b)
}

/// `b` starts with a whole frame whose body is valid UTF-8.
pub open spec fn holds_str_frame(b: Seq<u8>) -> bool {
    &&& b.len() >= 8
    &&& frame_len(b) <= b.len()
    &&& valid_utf8(b.subrange(8, frame_len(b)))
}

/// The string that the frame at the start of `b` holds.
pub open spec fn str_in_frame(b: Seq<u8>) -> Seq<char> {
    decode_utf8(b.subrange(8, frame_len(b)))
}

/// The bytes of a discovery advertisement for `name` and `port`.
pub open spec fn framed_info(name: Seq<char>, port: u16) -> Seq<u8> {
    framed_str(name) + spec_u16_to_le_bytes(port)
}

/// `b` starts with a framed string followed by a port.
pub open spec fn holds_info(b: Seq<u8>) -> bool {
    holds_str_frame(b) && frame_len(b) + 2 <= b.len()
}

/// The port that follows the framed string at the start of `b`.
pub open spec fn port_in_info(b: Seq<u8>) -> u16 {
    spec_u16_from_le_bytes(b.subrange(frame_len(b), frame_len(b) + 2))
}

/// A string whose UTF-8 form has a length that the prefix can carry.
pub open spec fn encodable(s: Seq<char>) -> bool {
    encode_utf8(s).len() <= u64::MAX
}

#[verifier::external_type_specification]
#[verifier::external_body]
pub struct ExBincodeErrorKind(bincode::ErrorKind);

/// Relies on `bincode::serialize` (default options: fixed-width little-endian
/// integers, no size limit): a `str` is written as its byte length as a `u64`
/// and then its bytes, into a `Vec`, which cannot fail.
#[verifier::external_body]
fn serialize_str(s: &str) -> (r: Result<Vec<u8>, Box<bincode::ErrorKind>>)
    ensures
        r is Ok,
        r is Ok ==> r->Ok_0@ == framed_str(s@),
{
    bincode::serialize(s)
}

/// Relies on `bincode::serialize` on a pair: the fields one after the other,
/// the string as above and the `u16` as two little-endian bytes.
#[verifier::external_body]
pub(crate) fn serialize_info(name: &str, port: u16) -> (r: Result<Vec<u8>, Box<bincode::ErrorKind>>)
    ensures
        r is Ok,
        r is Ok ==> r->Ok_0@ == framed_info(name@, port),
{
    bincode::serialize(&(name, port))
}

/// Relies on `bincode::deserialize::<String>`: it reads a `u64` length, takes
/// that many bytes if they are there, and accepts them when `String::from_utf8`
/// does; bytes after the frame are allowed.
#[verifier::external_body]
fn deserialize_str(b: &[u8]) -> (r: Result<String, Box<bincode::ErrorKind>>)
    ensures
        r is Ok <==> holds_str_frame(b@),
        r is Ok ==> r->Ok_0@ == str_in_frame(b@),
{
    bincode::deserialize::<String>(b)
}

/// Relies on `bincode::deserialize::<(String, u16)>`: a string read as above,
/// then a `u16` from the next two little-endian bytes.
#[verifier::external_body]
pub(crate) fn deserialize_info(b: &[u8]) -> (r: Result<(String, u16), Box<bincode::ErrorKind>>)
    ensures
        r is Ok <==> holds_info(b@),
        r is Ok ==> r->Ok_0.0@ == str_in_frame(b@) && r->Ok_0.1 == port_in_info(b@),
{
    bincode::deserialize::<(String, u16)>(b)
}

/// Relies on `bincode::serialized_size` (default options, no size limit): a
/// string takes eight bytes of length and its UTF-8 bytes.
#[verifier::external_body]
fn serialized_size_str(s: &String) -> (r: Result<u64, Box<bincode::ErrorKind>>)
    ensures
        r is Ok,
        r is Ok ==> r->Ok_0 as int == 8 + encode_utf8(s@).len(),
{
    bincode::serialized_size(s)
}

/// Bytes that do not start with what the codec writes.
#[derive(Debug, PartialEq, Eq, Clone, Copy, Structural)]
pub enum DecodeError {
    Malformed,
}

/// Encodes `name` as the header that opens a TCP session.
pub fn encode_header(name: &str) -> (r: Vec<u8>)
    ensures
        r@ == framed_str(name@),
{
    serialize_str(name).unwrap()
}

/// Reads the header at the start of `data`: the user name and the number of
/// bytes that it takes; what follows is payload.
pub fn decode_header(data: &[u8]) -> (r: Result<(String, usize), DecodeError>)
    ensures
        r is Ok <==> holds_str_frame(data@),
        r is Ok ==> r->Ok_0.0@ == str_in_frame(data@) && r->Ok_0.1 == frame_len(data@),
{
    match deserialize_str(data) {
        Ok(name) => {
            let size = serialized_size_str(&name).unwrap();
            let total = data.len();
            proof {
                lemma_frame_body_len(data@);
            }
            assert(size <= total);
            Ok((name, size as usize))
        },
        Err(_) => Err(DecodeError::Malformed),
    }
}

/// The body of a whole frame is as long as its prefix declares.
pub proof fn lemma_frame_body_len(b: Seq<u8>)
    requires
        holds_str_frame(b),
    ensures
        encode_utf8(str_in_frame(b)).len() == declared_len(b),
        frame_len(b) <= b.len(),
{
    let body = b.subrange(8, frame_len(b));
    assert(encode_utf8(decode_utf8(body)) == body);
}

/// What the codec writes for a string reads back as that string, with any
/// bytes after it left as they are: decoding the frame of `name` followed by
/// `rest` gives `name`, and the frame ends where `rest` begins.
pub proof fn lemma_header_round_trip(name: Seq<char>, rest: Seq<u8>)
    requires
        encodable(name),
    ensures
        holds_str_frame(framed_str(name) + rest),
        str_in_frame(framed_str(name) + rest) == name,
        frame_len(framed_str(name) + rest) == framed_str(name).len(),
{
    lemma_auto_spec_u64_to_from_le_bytes();
    let body = encode_utf8(name);
    let prefix = spec_u64_to_le_bytes(body.len() as u64);
    let b = framed_str(name) + rest;
    assert(b.subrange(0, 8) == prefix);
    assert(declared_len(b) == body.len());
    assert(b.subrange(8, frame_len(b)) == body);
}

/// Decoding the advertisement written for `name` and `port` gives back
/// `name` and `port`.
pub proof fn lemma_info_round_trip(name: Seq<char>, port: u16)
    requires
        encodable(name),
    ensures
        holds_info(framed_info(name, port)),
        str_in_frame(framed_info(name, port)) == name,
        port_in_info(framed_info(name, port)) == port,
{
    lemma_auto_spec_u16_to_from_le_bytes();
    let tail = spec_u16_to_le_bytes(port);
    lemma_header_round_trip(name, tail);
    let b = framed_info(name, port);
    let h = framed_str(name).len() as int;
    assert(b.subrange(h, h + 2) == tail);
}

/// The bytes of a whole frame are what the codec writes for the string in it.
pub proof fn lemma_frame_prefix(b: Seq<u8>)
    requires
        holds_str_frame(b),
    ensures
        encodable(str_in_frame(b)),
        framed_str(str_in_frame(b)) == b.subrange(0, frame_len(b)),
{
    lemma_auto_spec_u64_to_from_le_bytes();
    lemma_frame_body_len(b);
    let u = str_in_frame(b);
    let body = b.subrange(8, frame_len(b));
    assert(encode_utf8(u) == body);
    assert(spec_u64_to_le_bytes(declared_len(b) as u64) == b.subrange(0, 8));
    assert(framed_str(u) =~= b.subrange(0, frame_len(b)));
}

} // verus!
