//! Reading from and writing to byte buffers.
use bytes::Buf;
use bytes::BufMut;
use bytes::Bytes;
use vstd::prelude::*;

verus! {

/// `bytes::Bytes`: a buffer that is read from its front.
#[verifier::external_type_specification]
#[verifier::external_body]
pub struct ExBytes(bytes::Bytes);

/// The bytes that are still to be read from a buffer, first byte first.
pub uninterp spec fn bytes_left(buffer: bytes::Bytes) -> Seq<u8>;

/// `Buf::remaining` of `bytes::Bytes`: the number of bytes that are still to be read.
#[verifier::external_body]
pub(crate) fn remaining(r: &Bytes) -> (n: usize)
    ensures
        n == bytes_left(*r).len(),
{
    r.remaining()
}

/// `Buf::get_u8` of `bytes::Bytes`: takes the first byte off the buffer. It panics on an empty
/// buffer.
#[verifier::external_body]
pub(crate) fn get_u8(r: &mut Bytes) -> (b: u8)
    requires
        bytes_left(*old(r)).len() >= 1,
    ensures
        b == bytes_left(*old(r))[0],
        bytes_left(*final(r)) == bytes_left(*old(r)).skip(1),
{
    r.get_u8()
}

/// `Buf::copy_to_bytes` of `bytes::Bytes`: takes the first `n` bytes off the buffer, here as a
/// vector. It panics where the buffer holds fewer.
#[verifier::external_body]
pub(crate) fn copy_to_vec(r: &mut Bytes, n: usize) -> (v: Vec<u8>)
    requires
        n <= bytes_left(*old(r)).len(),
    ensures
        v@ == bytes_left(*old(r)).take(n as int),
        bytes_left(*final(r)) == bytes_left(*old(r)).skip(n as int),
{
    r.copy_to_bytes(n).to_vec()
}

/// The lowest `n` bytes of `v`, most significant byte first.
pub open spec fn big_endian(v: nat, n: nat) -> Seq<u8>
    decreases n,
{
    if n == 0 {
        Seq::empty()
    } else {
        big_endian(v / 256, (n - 1) as nat).push((v % 256) as u8)
    }
}

/// The number that bytes spell, most significant byte first.
pub open spec fn from_big_endian(s: Seq<u8>) -> nat
    decreases s.len(),
{
    if s.len() == 0 {
        0
    } else {
        from_big_endian(s.drop_last()) * 256 + s.last() as nat
    }
}

/// `BufMut::remaining_mut` of `Vec<u8>`: how many bytes can still be written. A vector never holds
/// more than `isize::MAX` bytes.
#[verifier::external_body]
pub(crate) fn remaining_mut(w: &Vec<u8>) -> (n: usize)
    ensures
        n == isize::MAX - w@.len(),
{
    w.remaining_mut()
}

/// `BufMut::put_u8` of `Vec<u8>`: appends one byte. It panics on a full buffer.
#[verifier::external_body]
pub(crate) fn put_u8(w: &mut Vec<u8>, b: u8)
    requires
        old(w)@.len() + 1 <= isize::MAX,
    ensures
        final(w)@ == old(w)@.push(b),
{
    w.put_u8(b)
}

/// `BufMut::put_u16` of `Vec<u8>`: appends two bytes in big-endian order. It panics where they do
/// not fit.
#[verifier::external_body]
pub(crate) fn put_u16(w: &mut Vec<u8>, v: u16)
    requires
        old(w)@.len() + 2 <= isize::MAX,
    ensures
        final(w)@ == old(w)@ + big_endian(v as nat, 2),
{
    w.put_u16(v)
}

/// `BufMut::put_u32` of `Vec<u8>`: appends four bytes in big-endian order. It panics where they do
/// not fit.
#[verifier::external_body]
pub(crate) fn put_u32(w: &mut Vec<u8>, v: u32)
    requires
        old(w)@.len() + 4 <= isize::MAX,
    ensures
        final(w)@ == old(w)@ + big_endian(v as nat, 4),
{
    w.put_u32(v)
}

/// `BufMut::put_u64` of `Vec<u8>`: appends eight bytes in big-endian order. It panics where they do
/// not fit.
#[verifier::external_body]
pub(crate) fn put_u64(w: &mut Vec<u8>, v: u64)
    requires
        old(w)@.len() + 8 <= isize::MAX,
    ensures
        final(w)@ == old(w)@ + big_endian(v as nat, 8),
{
    w.put_u64(v)
}

/// `BufMut::put_slice` of `Vec<u8>`: appends the bytes of a slice. It panics where they do not fit.
#[verifier::external_body]
pub(crate) fn put_slice(w: &mut Vec<u8>, s: &[u8])
    requires
        old(w)@.len() + s@.len() <= isize::MAX,
    ensures
        final(w)@ == old(w)@ + s@,
{
    w.put_slice(s)
}

} // verus!
