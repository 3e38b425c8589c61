//! Byte strings and text: a length, then that many bytes.
use super::error::DecodeError;
use super::error::EncodeError;
use super::traits::appending;
use super::traits::decode_remaining;
use super::traits::encode_remaining;
use super::traits::lemma_join;
use super::traits::Decode;
use super::traits::Encode;
use super::traits::Reading;
use super::traits::Writing;
use super::varint::length_reading;
use super::varint::lemma_varint_roundtrip;
use super::varint::varint;
use super::varint::varint_writing;
use super::varint::VARINT_END;
use super::wire::bytes_left;
use super::wire::copy_to_vec;
use super::wire::put_slice;
use bytes::Bytes;
use vstd::prelude::*;
use vstd::utf8::decode_utf8;
use vstd::utf8::encode_utf8;
use vstd::utf8::valid_utf8;

verus! {

/// The outcome of reading a byte string.
pub open spec fn blob_reading(s: Seq<u8>) -> Reading<Seq<u8>> {
    let (size, rest) = length_reading(s);
    match size {
        Ok(n) => if rest.len() < n {
            (Err(DecodeError::More((n - rest.len()) as usize)), rest)
        } else {
            (Ok(rest.take(n as int)), rest.skip(n as int))
        },
        Err(e) => (Err(e), rest),
    }
}

/// The outcome of writing a byte string. Its length stays written where its bytes do not fit.
pub open spec fn blob_writing(b: Seq<u8>, w: Seq<u8>) -> Writing {
    let head = varint_writing(b.len() as u64, w);
    match head.1 {
        Ok(()) => appending(head.0, b),
        Err(e) => head,
    }
}

/// The bytes of a byte string: its length, then itself.
pub open spec fn blob_wire(b: Seq<u8>) -> Seq<u8> {
    varint(b.len() as u64) + b
}

/// Whether the length of a byte string can be written, and held by the machine that reads it.
pub open spec fn blob_encodable(b: Seq<u8>) -> bool {
    b.len() < VARINT_END && b.len() <= usize::MAX
}

/// A byte string is written as `blob_wire`, and reads back.
pub proof fn lemma_blob(b: Seq<u8>, w: Seq<u8>, rest: Seq<u8>)
    requires
        blob_encodable(b),
    ensures
        blob_wire(b).len() >= 1,
        w.len() + blob_wire(b).len() <= isize::MAX ==> blob_writing(b, w) == (
            w + blob_wire(b),
            Ok::<(), EncodeError>(()),
        ),
        blob_reading(blob_wire(b) + rest) == (Ok::<Seq<u8>, DecodeError>(b), rest),
{
    let n = b.len() as u64;
    lemma_varint_roundtrip(n, b + rest);
    lemma_join(varint(n), b, rest);
    lemma_join(w, varint(n), b);
    assert((b + rest).take(n as int) == b) by {
        assert((b + rest).take(n as int) =~= b);
    }
    assert((b + rest).skip(n as int) == rest) by {
        assert((b + rest).skip(n as int) =~= rest);
    }
}

/// A byte string that has been written can be written, and was written as `blob_wire`.
pub proof fn lemma_blob_accepted(b: Seq<u8>, w: Seq<u8>)
    requires
        blob_writing(b, w).1 is Ok,
    ensures
        blob_encodable(b),
        blob_wire(b).len() >= 1,
        blob_writing(b, w).0 == w + blob_wire(b),
        w.len() + blob_wire(b).len() <= isize::MAX,
{
    let n = b.len() as u64;
    lemma_varint_roundtrip(n, Seq::empty());
    lemma_join(w, varint(n), b);
}

/// Reads a byte string.
pub(crate) fn decode_blob(r: &mut Bytes) -> (res: Result<Vec<u8>, DecodeError>)
    ensures
        res matches Ok(v) ==> blob_reading(bytes_left(*old(r))).0 == Ok::<Seq<u8>, DecodeError>(v@),
        res matches Err(e) ==> blob_reading(bytes_left(*old(r))).0 == Err::<Seq<u8>, DecodeError>(e),
        bytes_left(*final(r)) == blob_reading(bytes_left(*old(r))).1,
{
    let n: usize = match usize::decode(r) {
        Ok(n) => n,
        Err(e) => return Err(e),
    };
    match decode_remaining(r, n) {
        Ok(()) => {},
        Err(e) => return Err(e),
    }
    Ok(copy_to_vec(r, n))
}

/// Writes a byte string.
pub(crate) fn encode_blob(b: &[u8], w: &mut Vec<u8>) -> (res: Result<(), EncodeError>)
    ensures
        final(w)@ == blob_writing(b@, old(w)@).0,
        res == blob_writing(b@, old(w)@).1,
{
    match b.len().encode(w) {
        Ok(()) => {},
        Err(e) => return Err(e),
    }
    match encode_remaining(w, b.len()) {
        Ok(()) => {},
        Err(e) => return Err(e),
    }
    put_slice(w, b);
    Ok(())
}

/// `String::from_utf8`: the text that the bytes spell in UTF-8, or nothing where they are not valid
/// UTF-8.
#[verifier::external_body]
fn string_from_utf8(v: Vec<u8>) -> (res: Option<String>)
    ensures
        res is Some <==> valid_utf8(v@),
        res matches Some(text) ==> text@ == decode_utf8(v@),
{
    String::from_utf8(v).ok()
}

/// The outcome of reading text.
pub open spec fn text_reading(s: Seq<u8>) -> Reading<Seq<char>> {
    let (bytes, rest) = blob_reading(s);
    match bytes {
        Ok(b) => if valid_utf8(b) {
            (Ok(decode_utf8(b)), rest)
        } else {
            (Err(DecodeError::InvalidString), rest)
        },
        Err(e) => (Err(e), rest),
    }
}

/// The bytes of text: the length of its UTF-8 form, then that form.
pub open spec fn text_wire(t: Seq<char>) -> Seq<u8> {
    blob_wire(encode_utf8(t))
}

/// Text is written as `text_wire`, and reads back.
pub proof fn lemma_text(t: Seq<char>, w: Seq<u8>, rest: Seq<u8>)
    requires
        blob_encodable(encode_utf8(t)),
    ensures
        text_wire(t).len() >= 1,
        w.len() + text_wire(t).len() <= isize::MAX ==> blob_writing(encode_utf8(t), w) == (
            w + text_wire(t),
            Ok::<(), EncodeError>(()),
        ),
        text_reading(text_wire(t) + rest) == (Ok::<Seq<char>, DecodeError>(t), rest),
{
    lemma_blob(encode_utf8(t), w, rest);
    vstd::utf8::encode_utf8_valid_utf8(t);
    vstd::utf8::encode_utf8_decode_utf8(t);
}

impl Decode for String {
    open spec fn reading(s: Seq<u8>) -> Reading<Seq<char>> {
        text_reading(s)
    }

    fn decode(r: &mut Bytes) -> (res: Result<String, DecodeError>) {
        let bytes: Vec<u8> = match decode_blob(r) {
            Ok(b) => b,
            Err(e) => return Err(e),
        };
        match string_from_utf8(bytes) {
            Some(text) => Ok(text),
            None => Err(DecodeError::InvalidString),
        }
    }
}

impl Encode for String {
    open spec fn writing(v: Seq<char>, w: Seq<u8>) -> Writing {
        blob_writing(encode_utf8(v), w)
    }

    fn encode(&self, w: &mut Vec<u8>) -> (res: Result<(), EncodeError>) {
        encode_blob(self.as_str().as_bytes(), w)
    }
}

} // verus!
