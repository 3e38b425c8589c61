//! What holds of values as bytes, in terms of the bytes and the numbers that they spell.
use super::blob::blob_encodable;
use super::blob::blob_reading;
use super::blob::blob_wire;
use super::blob::blob_writing;
use super::blob::text_reading;
use super::error::DecodeError;
use super::error::EncodeError;
use super::params::distinct_params;
use super::params::entries_reading;
use super::params::entries_wire;
use super::params::has_param;
use super::params::params_reading;
use super::params::params_wire;
use super::params::ParamView;
use super::tuple::fields_reading;
use super::tuple::fields_wire;
use super::tuple::lossy_text;
use super::tuple::path_fields;
use super::tuple::path_text;
use super::tuple::tuple_reading;
use super::tuple::tuple_wire;
use super::varint::byte_reading;
use super::varint::lemma_varint_layout;
use super::varint::lemma_varint_roundtrip;
use super::varint::length_reading;
use super::varint::varint;
use super::varint::varint_reading;
use super::varint::varint_writing;
use super::wire::big_endian;
use super::wire::from_big_endian;
use vstd::prelude::*;
use vstd::utf8::decode_utf8;
use vstd::utf8::valid_utf8;

verus! {

/// Bytes spell a number in base 256, the first byte being the most significant one.
pub proof fn bytes_spell_numbers(a: u8, b: u8, c: u8, d: u8, s: Seq<u8>)
    ensures
        from_big_endian(Seq::empty()) == 0,
        from_big_endian(seq![a]) == a,
        from_big_endian(seq![a, b]) == 256 * a + b,
        from_big_endian(seq![a, b, c, d]) == 0x100_0000 * a + 0x1_0000 * b + 0x100 * c + d,
        from_big_endian(s.push(d)) == 256 * from_big_endian(s) + d,
{
    reveal_with_fuel(from_big_endian, 5);
    assert(seq![a].drop_last() =~= Seq::empty());
    assert(seq![a, b].drop_last() =~= seq![a]);
    assert(seq![a, b, c].drop_last() =~= seq![a, b]);
    assert(seq![a, b, c, d].drop_last() =~= seq![a, b, c]);
    assert(s.push(d).drop_last() =~= s);
}

/// A number is written in as many bytes as are asked for: the last of them is its remainder by 256, and
/// those before are the bytes of its quotient.
pub proof fn numbers_are_written_byte_by_byte(v: nat, n: nat)
    ensures
        big_endian(v, n).len() == n,
        n > 0 ==> big_endian(v, n).last() == v % 256 && big_endian(v, n).drop_last() == big_endian(
            v / 256,
            (n - 1) as nat,
        ),
    decreases n,
{
    if n > 0 {
        numbers_are_written_byte_by_byte(v / 256, (n - 1) as nat);
        assert(big_endian(v, n).drop_last() =~= big_endian(v / 256, (n - 1) as nat));
    }
}

/// A number below 2^62 is written in the shortest of four forms: in one, two, four or eight bytes, which
/// spell it with the form in the two highest bits. A number from there on is refused.
pub proof fn varint_takes_the_shortest_form(v: u64, w: Seq<u8>)
    ensures
        v < 0x40 ==> varint(v).len() == 1 && from_big_endian(varint(v)) == v,
        0x40 <= v < 0x4000 ==> varint(v).len() == 2 && from_big_endian(varint(v)) == v + 0x4000,
        0x4000 <= v < 0x4000_0000 ==> varint(v).len() == 4 && from_big_endian(varint(v)) == v
            + 0x8000_0000,
        0x4000_0000 <= v < 0x4000_0000_0000_0000 ==> varint(v).len() == 8 && from_big_endian(
            varint(v),
        ) == v + 0xc000_0000_0000_0000,
        v < 0x4000_0000_0000_0000 && w.len() + varint(v).len() <= isize::MAX ==> varint_writing(
            v,
            w,
        ) == (w + varint(v), Ok::<(), EncodeError>(())),
        v >= 0x4000_0000_0000_0000 ==> varint_writing(v, w) == (
            w,
            Err::<(), EncodeError>(EncodeError::BoundsExceeded),
        ),
{
    if v < 0x4000_0000_0000_0000 {
        lemma_varint_layout(v);
    }
}

/// The first byte tells the form of a number that is read, whether or not it is the shortest: below 64
/// one byte, below 128 two, below 192 four, and eight from there on. All but the two highest bits of
/// them spell the number. Where there are too few bytes, that many more are asked for.
pub proof fn varint_is_read_by_its_first_byte(s: Seq<u8>)
    ensures
        s.len() == 0 ==> varint_reading(s).0 == Err::<u64, DecodeError>(DecodeError::More(1)),
        s.len() > 0 ==> {
            let n: int = if s[0] < 64 {
                1
            } else if s[0] < 128 {
                2
            } else if s[0] < 192 {
                4
            } else {
                8
            };
            let end: int = if n == 1 {
                0x40
            } else if n == 2 {
                0x4000
            } else if n == 4 {
                0x4000_0000
            } else {
                0x4000_0000_0000_0000
            };
            &&& s.len() < n ==> varint_reading(s).0 == Err::<u64, DecodeError>(
                DecodeError::More((n - s.len()) as usize),
            )
            &&& s.len() >= n ==> {
                &&& varint_reading(s).1 == s.skip(n)
                &&& varint_reading(s).0 matches Ok(v)
                &&& v == from_big_endian(s.take(n)) as int % end
            }
        },
        byte_reading(s) == if s.len() == 0 {
            (Err::<u8, DecodeError>(DecodeError::More(1)), s)
        } else {
            (Ok::<u8, DecodeError>(s[0]), s.skip(1))
        },
{
    reveal(varint_reading);
}

/// A length is a number that the machine can hold.
pub proof fn lengths_are_numbers_that_fit(s: Seq<u8>, n: u64)
    ensures
        length_reading(s).1 == varint_reading(s).1,
        varint_reading(s).0 == Ok::<u64, DecodeError>(n) && n <= usize::MAX ==> length_reading(s).0
            == Ok::<usize, DecodeError>(n as usize),
        varint_reading(s).0 == Ok::<u64, DecodeError>(n) && n > usize::MAX ==> length_reading(s).0
            == Err::<usize, DecodeError>(DecodeError::BoundsExceeded),
        varint_reading(s).0 matches Err(e) ==> length_reading(s).0 == Err::<usize, DecodeError>(e),
{
}

/// A byte string that is cut off asks for the bytes that are missing.
pub proof fn blob_asks_for_what_is_missing(n: u64, there: Seq<u8>)
    requires
        n < 0x4000_0000_0000_0000,
        n <= usize::MAX,
        there.len() < n,
    ensures
        blob_reading(varint(n) + there).0 == Err::<Seq<u8>, DecodeError>(
            DecodeError::More((n - there.len()) as usize),
        ),
{
    lemma_varint_roundtrip(n, there);
}

/// What is read as a byte string stands in the bytes, as long as the number before it says, and what is
/// left stands right behind it.
pub proof fn blob_is_what_stands_behind_its_length(s: Seq<u8>)
    ensures
        blob_reading(s).0 matches Ok(b) ==> {
            &&& varint_reading(s).0 matches Ok(n)
            &&& b.len() == n
            &&& varint_reading(s).1 == b + blob_reading(s).1
        },
{
    if blob_reading(s).0 is Ok {
        let rest = varint_reading(s).1;
        assert(rest =~= blob_reading(s).0->Ok_0 + blob_reading(s).1);
    }
}

/// A byte string that fits is written behind what is there already, first its length and then its bytes.
pub proof fn blob_is_written_behind_its_length(b: Seq<u8>, w: Seq<u8>)
    requires
        blob_encodable(b),
        w.len() + varint(b.len() as u64).len() + b.len() <= isize::MAX,
    ensures
        blob_writing(b, w) == (w + varint(b.len() as u64) + b, Ok::<(), EncodeError>(())),
{
}

/// Text is a byte string that is valid UTF-8, and says what that spells. Another one is refused.
pub proof fn text_is_a_byte_string_in_utf8(s: Seq<u8>)
    ensures
        blob_reading(s).0 matches Ok(b) ==> {
            &&& valid_utf8(b) ==> text_reading(s).0 == Ok::<Seq<char>, DecodeError>(decode_utf8(b))
            &&& !valid_utf8(b) ==> text_reading(s).0 == Err::<Seq<char>, DecodeError>(
                DecodeError::InvalidString,
            )
        },
        blob_reading(s).0 matches Err(e) ==> text_reading(s).0 == Err::<Seq<char>, DecodeError>(e),
        text_reading(s).1 == blob_reading(s).1,
{
}

proof fn lemma_fields_count(n: nat, s: Seq<u8>)
    ensures
        fields_reading(n, s).0 matches Ok(fields) ==> fields.len() == n,
    decreases n,
{
    if n > 0 {
        let (first, rest) = blob_reading(s);
        if first is Ok {
            lemma_fields_count((n - 1) as nat, rest);
        }
    }
}

/// A namespace has as many fields as the number before them says, and the first of them is the byte string
/// that stands there.
pub proof fn tuple_has_as_many_fields_as_it_says(s: Seq<u8>)
    ensures
        tuple_reading(s).0 matches Ok(fields) ==> {
            &&& varint_reading(s).0 matches Ok(n)
            &&& fields.len() == n
            &&& n > 0 ==> blob_reading(varint_reading(s).1).0 == Ok::<Seq<u8>, DecodeError>(
                fields[0],
            )
        },
{
    if let Ok(n) = length_reading(s).0 {
        lemma_fields_count(n as nat, length_reading(s).1);
    }
}

proof fn lemma_entries_count(n: nat, done: Seq<ParamView>, s: Seq<u8>)
    ensures
        entries_reading(n, done, s).0 matches Ok(params) ==> params.len() == done.len() + n
            && params.take(done.len() as int) == done,
    decreases n,
{
    if n > 0 {
        let (kind, rest) = varint_reading(s);
        if let Ok(k) = kind {
            let (value, end) = blob_reading(rest);
            if let Ok(v) = value {
                lemma_entries_count((n - 1) as nat, done.push((k, v)), end);
                if let Ok(params) = entries_reading(n, done, s).0 {
                    assert(params.take(done.len() as int) =~= params.take(
                        done.len() as int + 1,
                    ).drop_last());
                    assert(done.push((k, v)).drop_last() =~= done);
                }
            }
        }
    }
    if let Ok(params) = entries_reading(n, done, s).0 {
        assert(n == 0 ==> params.take(done.len() as int) =~= done);
    }
}

/// There are as many parameters as the number before them says, and no two of one kind.
pub proof fn params_are_as_many_as_they_say(s: Seq<u8>)
    ensures
        params_reading(s).0 matches Ok(params) ==> {
            &&& varint_reading(s).0 matches Ok(n)
            &&& params.len() == n
            &&& distinct_params(params)
        },
{
    super::params::read_params_are_distinct(s);
    if let Ok(n) = varint_reading(s).0 {
        lemma_entries_count(n as nat, Seq::empty(), varint_reading(s).1);
    }
}

/// A byte string stands behind its length, a namespace behind the number of its fields, and parameters
/// behind their number, each parameter with its number before its value.
pub proof fn each_value_stands_behind_its_length(
    b: Seq<u8>,
    fields: Seq<Seq<u8>>,
    params: Seq<ParamView>,
    param: ParamView,
)
    ensures
        blob_wire(b) == varint(b.len() as u64) + b,
        tuple_wire(fields) == varint(fields.len() as u64) + fields_wire(fields),
        fields_wire(Seq::empty()) == Seq::<u8>::empty(),
        fields_wire(seq![b] + fields) == varint(b.len() as u64) + b + fields_wire(fields),
        params_wire(params) == varint(params.len() as u64) + entries_wire(params),
        entries_wire(Seq::empty()) == Seq::<u8>::empty(),
        entries_wire(seq![param] + params) == varint(param.0) + (varint(param.1.len() as u64)
            + param.1) + entries_wire(params),
{
    assert((seq![b] + fields).drop_first() =~= fields);
    assert((seq![param] + params).drop_first() =~= params);
}

/// A second parameter of the kind of the first one is refused.
pub proof fn repeated_parameter_is_refused(n: u64, kind: u64, value: Seq<u8>, rest: Seq<u8>)
    requires
        2 <= n < 0x4000_0000_0000_0000,
        kind < 0x4000_0000_0000_0000,
        blob_encodable(value),
    ensures
        params_reading(
            varint(n) + (varint(kind) + (blob_wire(value) + (varint(kind) + rest))),
        ).0 == Err::<Seq<ParamView>, DecodeError>(DecodeError::DuplicateParameter),
{
    let again = varint(kind) + rest;
    let first = blob_wire(value) + again;
    lemma_varint_roundtrip(n, varint(kind) + first);
    lemma_varint_roundtrip(kind, first);
    lemma_varint_roundtrip(kind, rest);
    assert(first =~= varint(value.len() as u64) + (value + again));
    lemma_varint_roundtrip(value.len() as u64, value + again);
    assert((value + again).take(value.len() as int) =~= value);
    assert((value + again).skip(value.len() as int) =~= again);
    assert(blob_reading(first) == (Ok::<Seq<u8>, DecodeError>(value), again));
    let done = Seq::<ParamView>::empty().push((kind, value));
    assert(done[0].0 == kind);
    assert(has_param(done, kind));
    assert(entries_reading((n - 1) as nat, done, again).0 == Err::<Seq<ParamView>, DecodeError>(
        DecodeError::DuplicateParameter,
    ));
    assert(entries_reading(n as nat, Seq::empty(), varint(kind) + first) == entries_reading(
        (n - 1) as nat,
        done,
        again,
    ));
}

/// Fields with a slash between each two of them.
pub open spec fn joined(fields: Seq<Seq<u8>>) -> Seq<u8>
    decreases fields.len(),
{
    if fields.len() == 0 {
        Seq::empty()
    } else if fields.len() == 1 {
        fields[0]
    } else {
        joined(fields.drop_last()) + seq![0x2fu8] + fields.last()
    }
}

/// The fields that a path names have no slash in them, and make up the path with slashes between them.
pub proof fn path_is_split_at_its_slashes(path: Seq<u8>)
    ensures
        path_fields(path).len() >= 1,
        forall|i: int, j: int|
            0 <= i < path_fields(path).len() && 0 <= j < path_fields(path)[i].len() ==> (
            #[trigger] path_fields(path)[i][j]) != 0x2f,
        joined(path_fields(path)) == path,
    decreases path.len(),
{
    if path.len() > 0 {
        let head = path.drop_last();
        let b = path.last();
        path_is_split_at_its_slashes(head);
        let fields = path_fields(head);
        let now = path_fields(path);
        assert(path =~= head + seq![b]);
        if b == 0x2f {
            assert(now.drop_last() =~= fields);
            assert(joined(now) =~= path);
        } else {
            assert(now.drop_last() =~= fields.drop_last());
            assert(now.last() == fields.last().push(b));
            if now.len() == 1 {
                assert(joined(now) =~= path);
            } else {
                assert(joined(now) =~= joined(fields).push(b));
            }
        }
    }
}

/// A namespace is written as a path with each field behind a slash.
pub proof fn path_has_each_field_behind_a_slash(fields: Seq<Seq<u8>>, field: Seq<u8>)
    ensures
        path_text(Seq::empty()) == Seq::<char>::empty(),
        path_text(fields.push(field)) == path_text(fields) + "/"@ + lossy_text(field),
{
    assert(fields.push(field).drop_last() =~= fields);
}

} // verus!
