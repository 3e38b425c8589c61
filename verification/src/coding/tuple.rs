//! Namespaces: tuples of byte strings.
use super::blob::blob_encodable;
use super::blob::blob_reading;
use super::blob::blob_wire;
use super::blob::blob_writing;
use super::blob::decode_blob;
use super::blob::encode_blob;
use super::blob::lemma_blob;
use super::blob::lemma_blob_accepted;
use super::error::DecodeError;
use super::error::EncodeError;
use super::traits::lemma_join;
use super::traits::Decode;
use super::traits::Encode;
use super::traits::Reading;
use super::traits::Writing;
use super::varint::lemma_varint_roundtrip;
use super::varint::length_reading;
use super::varint::varint;
use super::varint::varint_writing;
use super::varint::VARINT_END;
use super::wire::bytes_left;
use bytes::Bytes;
use vstd::prelude::*;
use vstd::utf8::decode_utf8;
use vstd::utf8::encode_utf8;
use vstd::utf8::valid_utf8;

verus! {

/// A track namespace.
#[derive(Debug)]
pub struct Tuple {
    pub fields: Vec<Vec<u8>>,
}

impl View for Tuple {
    type V = Seq<Seq<u8>>;

    open spec fn view(&self) -> Seq<Seq<u8>> {
        self.fields@.map_values(|f: Vec<u8>| f@)
    }
}

/// The outcome of reading `n` byte strings.
pub open spec fn fields_reading(n: nat, s: Seq<u8>) -> Reading<Seq<Seq<u8>>>
    decreases n,
{
    if n == 0 {
        (Ok(Seq::empty()), s)
    } else {
        let (first, rest) = blob_reading(s);
        match first {
            Ok(f) => after_field(seq![f], fields_reading((n - 1) as nat, rest)),
            Err(e) => (Err(e), rest),
        }
    }
}

/// The outcome of a reading that goes on behind the fields `done`.
pub open spec fn after_field(
    done: Seq<Seq<u8>>,
    next: Reading<Seq<Seq<u8>>>,
) -> Reading<Seq<Seq<u8>>> {
    match next.0 {
        Ok(fields) => (Ok(done + fields), next.1),
        Err(e) => (Err(e), next.1),
    }
}

/// The outcome of reading a namespace.
pub open spec fn tuple_reading(s: Seq<u8>) -> Reading<Seq<Seq<u8>>> {
    let (count, rest) = length_reading(s);
    match count {
        Ok(n) => fields_reading(n as nat, rest),
        Err(e) => (Err(e), rest),
    }
}

/// The outcome of writing byte strings one after another.
pub open spec fn fields_writing(fields: Seq<Seq<u8>>, w: Seq<u8>) -> Writing
    decreases fields.len(),
{
    if fields.len() == 0 {
        (w, Ok(()))
    } else {
        let first = blob_writing(fields[0], w);
        match first.1 {
            Ok(()) => fields_writing(fields.drop_first(), first.0),
            Err(e) => first,
        }
    }
}

/// The outcome of writing a namespace.
pub open spec fn tuple_writing(fields: Seq<Seq<u8>>, w: Seq<u8>) -> Writing {
    let head = varint_writing(fields.len() as u64, w);
    match head.1 {
        Ok(()) => fields_writing(fields, head.0),
        Err(e) => head,
    }
}

/// The bytes of byte strings one after another.
pub open spec fn fields_wire(fields: Seq<Seq<u8>>) -> Seq<u8>
    decreases fields.len(),
{
    if fields.len() == 0 {
        Seq::empty()
    } else {
        blob_wire(fields[0]) + fields_wire(fields.drop_first())
    }
}

/// The bytes of a namespace: the number of its fields, then each of them.
pub open spec fn tuple_wire(fields: Seq<Seq<u8>>) -> Seq<u8> {
    varint(fields.len() as u64) + fields_wire(fields)
}

/// Whether a namespace can be written, and held by the machine that reads it.
pub open spec fn tuple_encodable(fields: Seq<Seq<u8>>) -> bool {
    &&& fields.len() < VARINT_END
    &&& fields.len() <= usize::MAX
    &&& forall|i: int| 0 <= i < fields.len() ==> blob_encodable(#[trigger] fields[i])
}

proof fn lemma_fields(fields: Seq<Seq<u8>>, w: Seq<u8>, rest: Seq<u8>)
    requires
        forall|i: int| 0 <= i < fields.len() ==> blob_encodable(#[trigger] fields[i]),
    ensures
        w.len() + fields_wire(fields).len() <= isize::MAX ==> fields_writing(fields, w) == (
            w + fields_wire(fields),
            Ok::<(), EncodeError>(()),
        ),
        fields_reading(fields.len(), fields_wire(fields) + rest) == (
            Ok::<Seq<Seq<u8>>, DecodeError>(fields),
            rest,
        ),
    decreases fields.len(),
{
    if fields.len() == 0 {
        assert(w + fields_wire(fields) =~= w);
        assert(fields_wire(fields) + rest =~= rest);
        assert(fields =~= Seq::empty());
    } else {
        let tail = fields.drop_first();
        let first = blob_wire(fields[0]);
        lemma_blob(fields[0], w, fields_wire(tail) + rest);
        assert forall|i: int| 0 <= i < tail.len() implies blob_encodable(#[trigger] tail[i]) by {
            assert(tail[i] == fields[i + 1]);
        }
        lemma_fields(tail, w + first, rest);
        lemma_join(w, first, fields_wire(tail));
        lemma_join(first, fields_wire(tail), rest);
        assert(seq![fields[0]] + tail =~= fields);
    }
}

/// A namespace is written as `tuple_wire`, and reads back.
pub proof fn lemma_tuple(fields: Seq<Seq<u8>>, w: Seq<u8>, rest: Seq<u8>)
    requires
        tuple_encodable(fields),
    ensures
        w.len() + tuple_wire(fields).len() <= isize::MAX ==> tuple_writing(fields, w) == (
            w + tuple_wire(fields),
            Ok::<(), EncodeError>(()),
        ),
        tuple_reading(tuple_wire(fields) + rest) == (Ok::<Seq<Seq<u8>>, DecodeError>(fields), rest),
{
    let n = fields.len() as u64;
    lemma_varint_roundtrip(n, fields_wire(fields) + rest);
    lemma_fields(fields, w + varint(n), rest);
    lemma_join(varint(n), fields_wire(fields), rest);
    lemma_join(w, varint(n), fields_wire(fields));
}

proof fn lemma_fields_accepted(fields: Seq<Seq<u8>>, w: Seq<u8>)
    requires
        w.len() <= isize::MAX,
        fields_writing(fields, w).1 is Ok,
    ensures
        forall|i: int| 0 <= i < fields.len() ==> blob_encodable(#[trigger] fields[i]),
        fields_writing(fields, w).0 == w + fields_wire(fields),
        fields_wire(fields).len() >= fields.len(),
        w.len() + fields_wire(fields).len() <= isize::MAX,
    decreases fields.len(),
{
    if fields.len() == 0 {
        assert(w + fields_wire(fields) =~= w);
    } else {
        let tail = fields.drop_first();
        let first = blob_wire(fields[0]);
        lemma_blob_accepted(fields[0], w);
        lemma_fields_accepted(tail, w + first);
        lemma_join(w, first, fields_wire(tail));
        assert forall|i: int| 0 <= i < fields.len() implies blob_encodable(#[trigger] fields[i]) by {
            if i > 0 {
                assert(fields[i] == tail[i - 1]);
            }
        }
    }
}

/// A namespace that has been written can be written, and was written as `tuple_wire`.
pub proof fn lemma_tuple_accepted(fields: Seq<Seq<u8>>, w: Seq<u8>)
    requires
        tuple_writing(fields, w).1 is Ok,
    ensures
        tuple_encodable(fields),
        tuple_writing(fields, w).0 == w + tuple_wire(fields),
        w.len() + tuple_wire(fields).len() <= isize::MAX,
{
    let n = fields.len() as u64;
    lemma_fields_accepted(fields, w + varint(n));
    lemma_join(w, varint(n), fields_wire(fields));
}

impl Decode for Tuple {
    open spec fn reading(s: Seq<u8>) -> Reading<Seq<Seq<u8>>> {
        tuple_reading(s)
    }

    fn decode(r: &mut Bytes) -> (res: Result<Tuple, DecodeError>) {
        let count: usize = match usize::decode(r) {
            Ok(n) => n,
            Err(e) => return Err(e),
        };
        let ghost start = bytes_left(*r);
        let mut tuple = Tuple { fields: Vec::new() };
        let mut i: usize = 0;
        assert(after_field(tuple@, fields_reading(count as nat, start)).0 == fields_reading(
            count as nat,
            start,
        ).0) by {
            assert(tuple@ =~= Seq::empty());
            assert(forall|f: Seq<Seq<u8>>| #[trigger] (Seq::<Seq<u8>>::empty() + f) =~= f);
        }
        while i < count
            invariant
                i <= count,
                tuple_reading(bytes_left(*old(r))) == fields_reading(count as nat, start),
                after_field(tuple@, fields_reading((count - i) as nat, bytes_left(*r)))
                    == fields_reading(count as nat, start),
            decreases count - i,
        {
            let ghost before = tuple@;
            let field: Vec<u8> = match decode_blob(r) {
                Ok(f) => f,
                Err(e) => return Err(e),
            };
            tuple.fields.push(field);
            i = i + 1;
            proof {
                assert(tuple@ =~= before.push(field@));
                let next = fields_reading((count - i) as nat, bytes_left(*r));
                if let Ok(fields) = next.0 {
                    assert(before + (seq![field@] + fields) =~= tuple@ + fields);
                }
            }
        }
        proof {
            assert(tuple@ + Seq::<Seq<u8>>::empty() =~= tuple@);
        }
        Ok(tuple)
    }
}

impl Encode for Tuple {
    open spec fn writing(v: Seq<Seq<u8>>, w: Seq<u8>) -> Writing {
        tuple_writing(v, w)
    }

    fn encode(&self, w: &mut Vec<u8>) -> (res: Result<(), EncodeError>) {
        match self.fields.len().encode(w) {
            Ok(()) => {},
            Err(e) => return Err(e),
        }
        let ghost start = w@;
        let ghost fields = self@;
        let mut i: usize = 0;
        proof {
            assert(fields.skip(0) =~= fields);
        }
        while i < self.fields.len()
            invariant
                fields == self@,
                tuple_writing(fields, old(w)@) == fields_writing(fields, start),
                i <= self.fields@.len(),
                fields_writing(fields.skip(i as int), w@) == fields_writing(fields, start),
            decreases self.fields.len() - i,
        {
            proof {
                assert(fields.skip(i as int)[0] == self.fields@[i as int]@);
                assert(fields.skip(i as int).drop_first() =~= fields.skip(i + 1));
            }
            match encode_blob(self.fields[i].as_slice(), w) {
                Ok(()) => {},
                Err(e) => return Err(e),
            }
            i = i + 1;
        }
        Ok(())
    }
}

impl Clone for Tuple {
    fn clone(&self) -> (res: Tuple)
        ensures
            res@ == self@,
    {
        let mut fields: Vec<Vec<u8>> = Vec::new();
        let mut i: usize = 0;
        while i < self.fields.len()
            invariant
                i <= self.fields@.len(),
                fields@.len() == i,
                forall|j: int| 0 <= j < i ==> (#[trigger] fields@[j])@ == self.fields@[j]@,
            decreases self.fields.len() - i,
        {
            let field: Vec<u8> = self.fields[i].clone();
            assert(field@ =~= self.fields@[i as int]@);
            fields.push(field);
            i = i + 1;
        }
        let res = Tuple { fields };
        assert(res@ =~= self@);
        res
    }
}

/// The text of bytes as `String::from_utf8_lossy` gives it: parts that are not UTF-8 are replaced.
pub uninterp spec fn lossy_text(bytes: Seq<u8>) -> Seq<char>;

/// `String::from_utf8_lossy`: the text that the bytes spell in UTF-8. Where they are not valid
/// UTF-8, the parts that are not are replaced, in a way that is only named here.
#[verifier::external_body]
fn from_utf8_lossy(bytes: &[u8]) -> (res: String)
    ensures
        res@ == lossy_text(bytes@),
        valid_utf8(bytes@) ==> res@ == decode_utf8(bytes@),
{
    String::from_utf8_lossy(bytes).into_owned()
}

/// A namespace as a path: each field behind a slash.
pub open spec fn path_text(fields: Seq<Seq<u8>>) -> Seq<char>
    decreases fields.len(),
{
    if fields.len() == 0 {
        Seq::empty()
    } else {
        path_text(fields.drop_last()) + "/"@ + lossy_text(fields.last())
    }
}

/// The parts of a path between its slashes.
pub open spec fn path_fields(path: Seq<u8>) -> Seq<Seq<u8>>
    decreases path.len(),
{
    if path.len() == 0 {
        seq![Seq::empty()]
    } else {
        let head = path_fields(path.drop_last());
        if path.last() == SLASH {
            head.push(Seq::empty())
        } else {
            head.drop_last().push(head.last().push(path.last()))
        }
    }
}

/// The byte of a slash.
pub const SLASH: u8 = 0x2f;

impl Tuple {
    /// The namespace as a path: each field behind a slash.
    pub fn to_utf8_path(&self) -> (res: String)
        ensures
            res@ == path_text(self@),
    {
        let mut path: String = String::new();
        let mut i: usize = 0;
        assert(self@.take(0) =~= Seq::empty());
        while i < self.fields.len()
            invariant
                i <= self.fields@.len(),
                path@ == path_text(self@.take(i as int)),
            decreases self.fields.len() - i,
        {
            let field: String = from_utf8_lossy(self.fields[i].as_slice());
            path.append("/");
            path.append(field.as_str());
            assert(self@.take(i + 1).drop_last() =~= self@.take(i as int));
            assert(self@.take(i + 1).last() == self.fields@[i as int]@);
            i = i + 1;
        }
        assert(self@.take(i as int) =~= self@);
        path
    }

    /// The namespace that a path names: its parts between the slashes.
    pub fn from_utf8_path(path: &str) -> (res: Tuple)
        ensures
            res@ == path_fields(encode_utf8(path@)),
    {
        let bytes: &[u8] = path.as_bytes();
        let mut done: Vec<Vec<u8>> = Vec::new();
        let mut field: Vec<u8> = Vec::new();
        let mut i: usize = 0;
        proof {
            assert(bytes@.take(0) =~= Seq::empty());
            assert(done@.map_values(|f: Vec<u8>| f@).push(field@) =~= seq![Seq::<u8>::empty()]);
        }
        while i < bytes.len()
            invariant
                i <= bytes@.len(),
                done@.map_values(|f: Vec<u8>| f@).push(field@) == path_fields(
                    bytes@.take(i as int),
                ),
            decreases bytes.len() - i,
        {
            let ghost before = done@.map_values(|f: Vec<u8>| f@);
            let ghost last = field@;
            let b: u8 = bytes[i];
            proof {
                assert(bytes@.take(i + 1).drop_last() =~= bytes@.take(i as int));
                assert(before.push(last).drop_last() =~= before);
            }
            if b == SLASH {
                done.push(field);
                field = Vec::new();
                assert(done@.map_values(|f: Vec<u8>| f@) =~= before.push(last));
                assert(field@ =~= Seq::<u8>::empty());
            } else {
                field.push(b);
            }
            i = i + 1;
        }
        assert(bytes@.take(i as int) =~= bytes@);
        let ghost before = done@.map_values(|f: Vec<u8>| f@);
        done.push(field);
        let res = Tuple { fields: done };
        assert(res@ =~= before.push(field@));
        res
    }
}

} // verus!
