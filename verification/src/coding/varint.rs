//! Variable-length integers, single bytes and lengths.
//!
//! A variable-length integer takes one, two, four or eight bytes. The two highest bits of its first
//! byte say which, and the other bits are the number, most significant byte first.
use super::error::DecodeError;
use super::error::EncodeError;
use super::traits::appending;
use super::traits::decode_remaining;
use super::traits::encode_remaining;
use super::traits::Decode;
use super::traits::Encode;
use super::traits::Reading;
use super::traits::Writing;
use super::wire::big_endian;
use super::wire::bytes_left;
use super::wire::from_big_endian;
use super::wire::get_u8;
use super::wire::put_u16;
use super::wire::put_u32;
use super::wire::put_u64;
use super::wire::put_u8;
use bytes::Bytes;
use vstd::prelude::*;

verus! {

/// One more than the largest number that a variable-length integer can hold: two to the power 62.
pub const VARINT_END: u64 = 0x4000_0000_0000_0000;

/// How many bytes a variable-length integer takes that starts with `first`.
pub open spec fn varint_size(first: u8) -> nat {
    if first < 64 {
        1
    } else if first < 128 {
        2
    } else if first < 192 {
        4
    } else {
        8
    }
}

/// One more than the largest number that fits in a variable-length integer of `n` bytes.
pub open spec fn varint_end(n: nat) -> nat {
    if n == 1 {
        0x40
    } else if n == 2 {
        0x4000
    } else if n == 4 {
        0x4000_0000
    } else {
        0x4000_0000_0000_0000
    }
}

/// The outcome of reading a variable-length integer.
#[verifier::opaque]
pub open spec fn varint_reading(s: Seq<u8>) -> Reading<u64> {
    if s.len() == 0 {
        (Err(DecodeError::More(1)), s)
    } else {
        let n = varint_size(s[0]);
        if s.len() < n {
            (Err(DecodeError::More((n - s.len()) as usize)), s.skip(1))
        } else {
            (Ok((from_big_endian(s.take(n as int)) % varint_end(n)) as u64), s.skip(n as int))
        }
    }
}

/// The bytes of the shortest variable-length integer that holds `v`.
#[verifier::opaque]
pub open spec fn varint(v: u64) -> Seq<u8> {
    if v < 0x40 {
        big_endian(v as nat, 1)
    } else if v < 0x4000 {
        big_endian((v + 0x4000) as nat, 2)
    } else if v < 0x4000_0000 {
        big_endian((v + 0x8000_0000) as nat, 4)
    } else {
        big_endian((v + 0xc000_0000_0000_0000) as nat, 8)
    }
}

/// The outcome of writing a variable-length integer.
pub open spec fn varint_writing(v: u64, w: Seq<u8>) -> Writing {
    if v >= VARINT_END {
        (w, Err(EncodeError::BoundsExceeded))
    } else {
        appending(w, varint(v))
    }
}

/// 256 to the power `n`.
spec fn pow256(n: nat) -> nat
    decreases n,
{
    if n == 0 {
        1
    } else {
        256 * pow256((n - 1) as nat)
    }
}

proof fn lemma_pow256_values()
    ensures
        pow256(0) == 1,
        pow256(1) == 0x100,
        pow256(2) == 0x1_0000,
        pow256(3) == 0x100_0000,
        pow256(4) == 0x1_0000_0000,
        pow256(5) == 0x100_0000_0000,
        pow256(6) == 0x1_0000_0000_0000,
        pow256(7) == 0x100_0000_0000_0000,
        pow256(8) == 0x1_0000_0000_0000_0000,
{
    reveal_with_fuel(pow256, 9);
}

/// `n` bytes are written for a number, and they spell it where it fits in them.
proof fn lemma_big_endian(v: nat, n: nat)
    requires
        v < pow256(n),
    ensures
        big_endian(v, n).len() == n,
        from_big_endian(big_endian(v, n)) == v,
        n > 0 ==> big_endian(v, n)[0] == v / pow256((n - 1) as nat),
    decreases n,
{
    if n > 0 {
        let m = (n - 1) as nat;
        lemma_big_endian(v / 256, m);
        let s = big_endian(v, n);
        assert(s.drop_last() =~= big_endian(v / 256, m));
        if m > 0 {
            assert(pow256(m) == 256 * pow256((m - 1) as nat));
            assert(pow256((m - 1) as nat) > 0) by {
                lemma_pow256_positive((m - 1) as nat);
            }
            vstd::arithmetic::div_mod::lemma_div_denominator(
                v as int,
                256,
                pow256((m - 1) as nat) as int,
            );
            assert((v / 256) / pow256((m - 1) as nat) == v / pow256(m));
            assert(s[0] == big_endian(v / 256, m)[0]);
        } else {
            lemma_pow256_values();
            assert(v / 1 == v);
            assert(s[0] == v);
        }
    }
}

proof fn lemma_pow256_positive(n: nat)
    ensures
        pow256(n) > 0,
    decreases n,
{
    if n > 0 {
        lemma_pow256_positive((n - 1) as nat);
    }
}

/// What `varint` lays out takes one, two, four or eight bytes and reads back as the number, and the
/// reading stops right behind it.
pub proof fn lemma_varint_roundtrip(v: u64, rest: Seq<u8>)
    requires
        v < VARINT_END,
    ensures
        1 <= varint(v).len() <= 8,
        varint_reading(varint(v) + rest) == (Ok::<u64, DecodeError>(v), rest),
{
    reveal(varint);
    reveal(varint_reading);
    lemma_pow256_values();
    let s = varint(v) + rest;
    let (x, n): (nat, nat) = if v < 0x40 {
        (v as nat, 1)
    } else if v < 0x4000 {
        ((v + 0x4000) as nat, 2)
    } else if v < 0x4000_0000 {
        ((v + 0x8000_0000) as nat, 4)
    } else {
        ((v + 0xc000_0000_0000_0000) as nat, 8)
    };
    lemma_big_endian(x, n);
    assert(s[0] == varint(v)[0]);
    assert(varint_size(s[0]) == n);
    assert(s.take(n as int) =~= varint(v));
    assert(s.skip(n as int) =~= rest);
}

/// The bytes of a number are those of the shortest form, with the form in the two highest bits.
pub proof fn lemma_varint_layout(v: u64)
    requires
        v < VARINT_END,
    ensures
        v < 0x40 ==> varint(v).len() == 1 && from_big_endian(varint(v)) == v,
        0x40 <= v < 0x4000 ==> varint(v).len() == 2 && from_big_endian(varint(v)) == v + 0x4000,
        0x4000 <= v < 0x4000_0000 ==> varint(v).len() == 4 && from_big_endian(varint(v)) == v
            + 0x8000_0000,
        0x4000_0000 <= v ==> varint(v).len() == 8 && from_big_endian(varint(v)) == v
            + 0xc000_0000_0000_0000,
{
    reveal(varint);
    lemma_pow256_values();
    if v < 0x40 {
        lemma_big_endian(v as nat, 1);
    } else if v < 0x4000 {
        lemma_big_endian((v + 0x4000) as nat, 2);
    } else if v < 0x4000_0000 {
        lemma_big_endian((v + 0x8000_0000) as nat, 4);
    } else {
        lemma_big_endian((v + 0xc000_0000_0000_0000) as nat, 8);
    }
}

impl Decode for u64 {
    open spec fn reading(s: Seq<u8>) -> Reading<u64> {
        varint_reading(s)
    }

    fn decode(r: &mut Bytes) -> (res: Result<u64, DecodeError>) {
        let ghost s = bytes_left(*r);
        proof {
            reveal(varint_reading);
        }
        match decode_remaining(r, 1) {
            Ok(()) => {},
            Err(e) => return Err(e),
        }
        let first: u8 = get_u8(r);
        let n: usize = if first < 64 {
            1
        } else if first < 128 {
            2
        } else if first < 192 {
            4
        } else {
            8
        };
        match decode_remaining(r, n - 1) {
            Ok(()) => {},
            Err(e) => return Err(e),
        }
        let mut v: u64 = (first % 64) as u64;
        let mut i: usize = 1;
        proof {
            lemma_pow256_values();
            assert(s.take(1).drop_last() =~= Seq::<u8>::empty());
            reveal_with_fuel(from_big_endian, 2);
            assert(from_big_endian(s.take(1)) == first);
        }
        while i < n
            invariant
                1 <= i <= n <= 8,
                n == varint_size(first),
                n <= s.len(),
                s[0] == first,
                bytes_left(*r) == s.skip(i as int),
                from_big_endian(s.take(i as int)) == v + (first / 64) * 64 * pow256((i - 1) as nat),
                v < 64 * pow256((i - 1) as nat),
            decreases n - i,
        {
            proof {
                lemma_pow256_values();
                assert(s.take(i + 1).drop_last() =~= s.take(i as int));
                assert(pow256(i as nat) == 256 * pow256((i - 1) as nat));
                assert((first / 64) * 64 * (256 * pow256((i - 1) as nat)) == 256 * ((first / 64)
                    * 64 * pow256((i - 1) as nat))) by (nonlinear_arith);
                lemma_pow256_monotone((i - 1) as nat, 6);
                assert(s.skip(i as int).skip(1) =~= s.skip(i + 1));
            }
            let c: u8 = get_u8(r);
            v = v * 256 + c as u64;
            i = i + 1;
        }
        proof {
            lemma_pow256_values();
            assert(first / 64 == 0 <==> n == 1);
            assert(first / 64 == 1 <==> n == 2);
            assert(first / 64 == 2 <==> n == 4);
            assert(first / 64 == 3 <==> n == 8);
            let whole = from_big_endian(s.take(n as int));
            if n == 1 {
                assert(whole == v);
                assert(whole % 0x40 == v);
            } else if n == 2 {
                assert(whole == v + 1 * 64 * 0x100);
                assert(whole % 0x4000 == v);
            } else if n == 4 {
                assert(whole == v + 2 * 64 * 0x100_0000);
                assert(whole % 0x4000_0000 == v);
            } else {
                assert(whole == v + 3 * 64 * 0x100_0000_0000_0000);
                assert(whole % 0x4000_0000_0000_0000 == v);
            }
        }
        Ok(v)
    }
}

impl Encode for u64 {
    open spec fn writing(v: u64, w: Seq<u8>) -> Writing {
        varint_writing(v, w)
    }

    fn encode(&self, w: &mut Vec<u8>) -> (res: Result<(), EncodeError>) {
        let v: u64 = *self;
        if v >= VARINT_END {
            return Err(EncodeError::BoundsExceeded);
        }
        let n: usize = if v < 0x40 {
            1
        } else if v < 0x4000 {
            2
        } else if v < 0x4000_0000 {
            4
        } else {
            8
        };
        proof {
            reveal(varint);
            lemma_varint_roundtrip(v, Seq::empty());
            assert(varint(v).len() == n) by {
                reveal_with_fuel(big_endian, 9);
            }
        }
        match encode_remaining(w, n) {
            Ok(()) => {},
            Err(e) => return Err(e),
        }
        if n == 1 {
            put_u8(w, v as u8);
            assert(old(w)@.push(v as u8) =~= old(w)@ + varint(v)) by {
                reveal_with_fuel(big_endian, 2);
            }
        } else if n == 2 {
            put_u16(w, v as u16 + 0x4000);
        } else if n == 4 {
            put_u32(w, v as u32 + 0x8000_0000);
        } else {
            put_u64(w, v + 0xc000_0000_0000_0000);
        }
        Ok(())
    }
}

/// The outcome of reading one byte.
pub open spec fn byte_reading(s: Seq<u8>) -> Reading<u8> {
    if s.len() == 0 {
        (Err(DecodeError::More(1)), s)
    } else {
        (Ok(s[0]), s.skip(1))
    }
}

impl Decode for u8 {
    open spec fn reading(s: Seq<u8>) -> Reading<u8> {
        byte_reading(s)
    }

    fn decode(r: &mut Bytes) -> (res: Result<u8, DecodeError>) {
        match decode_remaining(r, 1) {
            Ok(()) => {},
            Err(e) => return Err(e),
        }
        Ok(get_u8(r))
    }
}

impl Encode for u8 {
    open spec fn writing(v: u8, w: Seq<u8>) -> Writing {
        appending(w, seq![v])
    }

    fn encode(&self, w: &mut Vec<u8>) -> (res: Result<(), EncodeError>) {
        match encode_remaining(w, 1) {
            Ok(()) => {},
            Err(e) => return Err(e),
        }
        put_u8(w, *self);
        assert(w@ =~= old(w)@ + seq![*self]);
        Ok(())
    }
}

/// The outcome of reading a length: a variable-length integer that the machine can hold.
pub open spec fn length_reading(s: Seq<u8>) -> Reading<usize> {
    match varint_reading(s).0 {
        Ok(n) => if n <= usize::MAX {
            (Ok(n as usize), varint_reading(s).1)
        } else {
            (Err(DecodeError::BoundsExceeded), varint_reading(s).1)
        },
        Err(e) => (Err(e), varint_reading(s).1),
    }
}

impl Decode for usize {
    open spec fn reading(s: Seq<u8>) -> Reading<usize> {
        length_reading(s)
    }

    fn decode(r: &mut Bytes) -> (res: Result<usize, DecodeError>) {
        match u64::decode(r) {
            Ok(n) => if n <= usize::MAX as u64 {
                Ok(n as usize)
            } else {
                Err(DecodeError::BoundsExceeded)
            },
            Err(e) => Err(e),
        }
    }
}

impl Encode for usize {
    open spec fn writing(v: usize, w: Seq<u8>) -> Writing {
        varint_writing(v as u64, w)
    }

    fn encode(&self, w: &mut Vec<u8>) -> (res: Result<(), EncodeError>) {
        (*self as u64).encode(w)
    }
}

proof fn lemma_pow256_monotone(a: nat, b: nat)
    requires
        a <= b,
    ensures
        pow256(a) <= pow256(b),
    decreases b,
{
    if a < b {
        lemma_pow256_monotone(a, (b - 1) as nat);
    }
}

} // verus!
