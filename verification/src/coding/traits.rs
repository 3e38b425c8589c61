//! What it means to be read from and written to a buffer.
use super::error::DecodeError;
use super::error::EncodeError;
use super::wire::bytes_left;
use super::wire::remaining;
use super::wire::remaining_mut;
use bytes::Bytes;
use vstd::prelude::*;

verus! {

/// The outcome of a reading: the value or the error, and the bytes that are then left.
pub type Reading<T> = (Result<T, DecodeError>, Seq<u8>);

/// The outcome of a writing: what the buffer holds then, and whether all was written.
pub type Writing = (Seq<u8>, Result<(), EncodeError>);

/// A reading that goes on behind another: it starts where the first one stopped, and an error of the
/// first one ends both.
pub open spec fn then_read<A, B>(
    first: Reading<A>,
    next: spec_fn(A, Seq<u8>) -> Reading<B>,
) -> Reading<B> {
    match first.0 {
        Ok(a) => next(a, first.1),
        Err(e) => (Err(e), first.1),
    }
}

/// A writing that goes on behind another, unless that one failed.
pub open spec fn then_write(first: Writing, next: spec_fn(Seq<u8>) -> Writing) -> Writing {
    match first.1 {
        Ok(()) => next(first.0),
        Err(e) => first,
    }
}

/// A value that can be read from a buffer.
pub trait Decode: View + Sized {
    /// What is read where the buffer holds `s`.
    spec fn reading(s: Seq<u8>) -> Reading<Self::V>;

    /// Reads a value off the front of the buffer.
    fn decode(r: &mut Bytes) -> (res: Result<Self, DecodeError>)
        ensures
            res matches Ok(v) ==> Self::reading(bytes_left(*old(r))).0 == Ok::<Self::V, DecodeError>(v@),
            res matches Err(e) ==> Self::reading(bytes_left(*old(r))).0 == Err::<Self::V, DecodeError>(e),
            bytes_left(*final(r)) == Self::reading(bytes_left(*old(r))).1,
    ;
}

/// A value that can be written to a buffer.
pub trait Encode: View {
    /// What is written where the buffer holds `w`.
    spec fn writing(v: Self::V, w: Seq<u8>) -> Writing;

    /// Appends the value to the buffer.
    fn encode(&self, w: &mut Vec<u8>) -> (res: Result<(), EncodeError>)
        ensures
            final(w)@ == Self::writing(self@, old(w)@).0,
            res == Self::writing(self@, old(w)@).1,
    ;
}

/// Fails where the buffer holds fewer than `required` bytes.
pub(crate) fn decode_remaining(r: &Bytes, required: usize) -> (res: Result<(), DecodeError>)
    ensures
        res == if bytes_left(*r).len() < required {
            Err::<(), DecodeError>(DecodeError::More((required - bytes_left(*r).len()) as usize))
        } else {
            Ok::<(), DecodeError>(())
        },
{
    let left: usize = remaining(r);
    if left < required {
        Err(DecodeError::More(required - left))
    } else {
        Ok(())
    }
}

/// The outcome of appending `b` as a whole: nothing is appended where it does not fit.
pub open spec fn appending(w: Seq<u8>, b: Seq<u8>) -> Writing {
    if w.len() + b.len() <= isize::MAX {
        (w + b, Ok(()))
    } else {
        (w, Err(EncodeError::More((w.len() + b.len() - isize::MAX) as usize)))
    }
}

/// Fails where fewer than `required` bytes can still be written.
pub(crate) fn encode_remaining(w: &Vec<u8>, required: usize) -> (res: Result<(), EncodeError>)
    ensures
        w@.len() <= isize::MAX,
        res == if w@.len() + required <= isize::MAX {
            Ok::<(), EncodeError>(())
        } else {
            Err::<(), EncodeError>(
                EncodeError::More((w@.len() + required - isize::MAX) as usize),
            )
        },
{
    let left: usize = remaining_mut(w);
    if left < required {
        Err(EncodeError::More(required - left))
    } else {
        Ok(())
    }
}

/// Joining sequences can be bracketed either way.
pub proof fn lemma_join(a: Seq<u8>, b: Seq<u8>, c: Seq<u8>)
    ensures
        (a + b) + c == a + (b + c),
{
    assert((a + b) + c =~= a + (b + c));
}

} // verus!
