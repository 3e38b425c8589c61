//! Optional parameters of a message: byte strings under distinct numbers.
use super::blob::blob_encodable;
use super::blob::blob_reading;
use super::blob::blob_wire;
use super::blob::blob_writing;
use super::blob::decode_blob;
use super::blob::encode_blob;
use super::blob::lemma_blob;
use super::blob::lemma_blob_accepted;
use super::error::DecodeError;
use super::error::EncodeError;
use super::traits::lemma_join;
use super::traits::Decode;
use super::traits::Encode;
use super::traits::Reading;
use super::traits::Writing;
use super::varint::lemma_varint_roundtrip;
use super::varint::varint;
use super::varint::varint_reading;
use super::varint::varint_writing;
use super::varint::VARINT_END;
use super::wire::bytes_left;
use bytes::Bytes;
use vstd::prelude::*;

verus! {

/// The parameters of a message, in the order in which they are written.
#[derive(Debug)]
pub struct Params {
    pub entries: Vec<(u64, Vec<u8>)>,
}

/// A parameter's number and value.
pub type ParamView = (u64, Seq<u8>);

/// What a stored parameter stands for.
pub open spec fn param_view(entry: (u64, Vec<u8>)) -> ParamView {
    (entry.0, entry.1@)
}

/// Whether a parameter of the given number is there.
pub open spec fn has_param(params: Seq<ParamView>, kind: u64) -> bool {
    exists|i: int| 0 <= i < params.len() && (#[trigger] params[i]).0 == kind
}

/// Whether no number occurs twice.
pub open spec fn distinct_params(params: Seq<ParamView>) -> bool {
    forall|i: int, j: int|
        0 <= i < j < params.len() ==> (#[trigger] params[i]).0 != (#[trigger] params[j]).0
}

impl View for Params {
    type V = Seq<ParamView>;

    open spec fn view(&self) -> Seq<ParamView> {
        self.entries@.map_values(|e: (u64, Vec<u8>)| param_view(e))
    }
}

/// The outcome of reading `n` more parameters where those in `done` have been read.
pub open spec fn entries_reading(n: nat, done: Seq<ParamView>, s: Seq<u8>) -> Reading<
    Seq<ParamView>,
>
    decreases n,
{
    if n == 0 {
        (Ok(done), s)
    } else {
        let (kind, rest) = varint_reading(s);
        match kind {
            Ok(k) => if has_param(done, k) {
                (Err(DecodeError::DuplicateParameter), rest)
            } else {
                let (value, end) = blob_reading(rest);
                match value {
                    Ok(v) => entries_reading((n - 1) as nat, done.push((k, v)), end),
                    Err(e) => (Err(e), end),
                }
            },
            Err(e) => (Err(e), rest),
        }
    }
}

/// The outcome of reading parameters.
pub open spec fn params_reading(s: Seq<u8>) -> Reading<Seq<ParamView>> {
    let (count, rest) = varint_reading(s);
    match count {
        Ok(n) => entries_reading(n as nat, Seq::empty(), rest),
        Err(e) => (Err(e), rest),
    }
}

/// The outcome of writing one parameter.
pub open spec fn entry_writing(entry: ParamView, w: Seq<u8>) -> Writing {
    let head = varint_writing(entry.0, w);
    match head.1 {
        Ok(()) => blob_writing(entry.1, head.0),
        Err(e) => head,
    }
}

/// The outcome of writing parameters one after another.
pub open spec fn entries_writing(params: Seq<ParamView>, w: Seq<u8>) -> Writing
    decreases params.len(),
{
    if params.len() == 0 {
        (w, Ok(()))
    } else {
        let first = entry_writing(params[0], w);
        match first.1 {
            Ok(()) => entries_writing(params.drop_first(), first.0),
            Err(e) => first,
        }
    }
}

/// The outcome of writing parameters with their number.
pub open spec fn params_writing(params: Seq<ParamView>, w: Seq<u8>) -> Writing {
    let head = varint_writing(params.len() as u64, w);
    match head.1 {
        Ok(()) => entries_writing(params, head.0),
        Err(e) => head,
    }
}

/// The bytes of parameters one after another.
pub open spec fn entries_wire(params: Seq<ParamView>) -> Seq<u8>
    decreases params.len(),
{
    if params.len() == 0 {
        Seq::empty()
    } else {
        varint(params[0].0) + blob_wire(params[0].1) + entries_wire(params.drop_first())
    }
}

/// The bytes of parameters: how many there are, then each of them.
pub open spec fn params_wire(params: Seq<ParamView>) -> Seq<u8> {
    varint(params.len() as u64) + entries_wire(params)
}

/// Whether parameters can be written, and held by the machine that reads them.
pub open spec fn params_encodable(params: Seq<ParamView>) -> bool {
    &&& params.len() < VARINT_END
    &&& distinct_params(params)
    &&& forall|i: int|
        0 <= i < params.len() ==> (#[trigger] params[i]).0 < VARINT_END && blob_encodable(
            params[i].1,
        )
}

proof fn lemma_entries(done: Seq<ParamView>, params: Seq<ParamView>, w: Seq<u8>, rest: Seq<u8>)
    requires
        distinct_params(done + params),
        forall|i: int|
            0 <= i < params.len() ==> (#[trigger] params[i]).0 < VARINT_END && blob_encodable(
                params[i].1,
            ),
    ensures
        w.len() + entries_wire(params).len() <= isize::MAX ==> entries_writing(params, w) == (
            w + entries_wire(params),
            Ok::<(), EncodeError>(()),
        ),
        entries_reading(params.len(), done, entries_wire(params) + rest) == (
            Ok::<Seq<ParamView>, DecodeError>(done + params),
            rest,
        ),
    decreases params.len(),
{
    if params.len() == 0 {
        assert(w + entries_wire(params) =~= w);
        assert(entries_wire(params) + rest =~= rest);
        assert(done + params =~= done);
    } else {
        let tail = params.drop_first();
        let (k, v) = params[0];
        let next = blob_wire(v) + (entries_wire(tail) + rest);
        lemma_varint_roundtrip(k, next);
        lemma_blob(v, w + varint(k), entries_wire(tail) + rest);
        assert forall|i: int| 0 <= i < tail.len() implies (#[trigger] tail[i]).0 < VARINT_END
            && blob_encodable(tail[i].1) by {
            assert(tail[i] == params[i + 1]);
        }
        assert(done.push((k, v)) + tail =~= done + params);
        lemma_entries(done.push((k, v)), tail, w + varint(k) + blob_wire(v), rest);
        assert(!has_param(done, k)) by {
            let all = done + params;
            assert forall|i: int| 0 <= i < done.len() implies (#[trigger] done[i]).0 != k by {
                assert(all[i] == done[i]);
                assert(all[done.len() as int] == params[0]);
            }
        }
        lemma_join(w, varint(k), blob_wire(v));
        lemma_join(w, varint(k) + blob_wire(v), entries_wire(tail));
        lemma_join(varint(k) + blob_wire(v), entries_wire(tail), rest);
        lemma_join(varint(k), blob_wire(v), entries_wire(tail) + rest);
    }
}

/// Parameters are written as `params_wire`, and read back.
pub proof fn lemma_params(params: Seq<ParamView>, w: Seq<u8>, rest: Seq<u8>)
    requires
        params_encodable(params),
    ensures
        params_wire(params).len() >= 1,
        w.len() + params_wire(params).len() <= isize::MAX ==> params_writing(params, w) == (
            w + params_wire(params),
            Ok::<(), EncodeError>(()),
        ),
        params_reading(params_wire(params) + rest) == (
            Ok::<Seq<ParamView>, DecodeError>(params),
            rest,
        ),
{
    let n = params.len() as u64;
    let none = Seq::<ParamView>::empty();
    lemma_varint_roundtrip(n, entries_wire(params) + rest);
    assert(none + params =~= params);
    lemma_entries(none, params, w + varint(n), rest);
    lemma_join(varint(n), entries_wire(params), rest);
    lemma_join(w, varint(n), entries_wire(params));
}

proof fn lemma_entries_accepted(params: Seq<ParamView>, w: Seq<u8>)
    requires
        w.len() <= isize::MAX,
        entries_writing(params, w).1 is Ok,
    ensures
        forall|i: int|
            0 <= i < params.len() ==> (#[trigger] params[i]).0 < VARINT_END && blob_encodable(
                params[i].1,
            ),
        entries_writing(params, w).0 == w + entries_wire(params),
        entries_wire(params).len() >= params.len(),
        w.len() + entries_wire(params).len() <= isize::MAX,
    decreases params.len(),
{
    if params.len() == 0 {
        assert(w + entries_wire(params) =~= w);
    } else {
        let tail = params.drop_first();
        let (k, v) = params[0];
        lemma_blob_accepted(v, w + varint(k));
        lemma_join(w, varint(k), blob_wire(v));
        lemma_entries_accepted(tail, w + (varint(k) + blob_wire(v)));
        lemma_join(w, varint(k) + blob_wire(v), entries_wire(tail));
        assert forall|i: int| 0 <= i < params.len() implies (#[trigger] params[i]).0 < VARINT_END
            && blob_encodable(params[i].1) by {
            if i > 0 {
                assert(params[i] == tail[i - 1]);
            }
        }
    }
}

/// Parameters that have been written can be written where no number is there twice, and were written
/// as `params_wire`.
pub proof fn lemma_params_accepted(params: Seq<ParamView>, w: Seq<u8>)
    requires
        distinct_params(params),
        params_writing(params, w).1 is Ok,
    ensures
        params_encodable(params),
        params_writing(params, w).0 == w + params_wire(params),
        w.len() + params_wire(params).len() <= isize::MAX,
{
    let n = params.len() as u64;
    lemma_entries_accepted(params, w + varint(n));
    lemma_join(w, varint(n), entries_wire(params));
}

proof fn lemma_entries_distinct(n: nat, done: Seq<ParamView>, s: Seq<u8>)
    requires
        distinct_params(done),
    ensures
        entries_reading(n, done, s).0 matches Ok(p) ==> distinct_params(p),
    decreases n,
{
    if n > 0 {
        let (kind, rest) = varint_reading(s);
        if let Ok(k) = kind {
            let (value, end) = blob_reading(rest);
            if !has_param(done, k) && value is Ok {
                lemma_entries_distinct((n - 1) as nat, done.push((k, value->Ok_0)), end);
            }
        }
    }
}

/// No parameter that is read has the number of another.
pub proof fn read_params_are_distinct(s: Seq<u8>)
    ensures
        params_reading(s).0 matches Ok(p) ==> distinct_params(p),
{
    let (count, rest) = varint_reading(s);
    if let Ok(n) = count {
        lemma_entries_distinct(n as nat, Seq::empty(), rest);
    }
}

impl Params {
    /// Whether there are no parameters.
    pub fn is_empty(&self) -> (res: bool)
        ensures
            res == (self@.len() == 0),
    {
        self.entries.len() == 0
    }

    /// Whether a parameter of the given number is there.
    fn has(&self, kind: u64) -> (res: bool)
        ensures
            res == has_param(self@, kind),
    {
        let mut i: usize = 0;
        while i < self.entries.len()
            invariant
                i <= self.entries@.len(),
                forall|j: int| 0 <= j < i ==> (#[trigger] self@[j]).0 != kind,
            decreases self.entries.len() - i,
        {
            if self.entries[i].0 == kind {
                assert(self@[i as int].0 == kind);
                return true;
            }
            i = i + 1;
        }
        false
    }
}

impl Clone for Params {
    fn clone(&self) -> (res: Params)
        ensures
            res@ == self@,
    {
        let mut entries: Vec<(u64, Vec<u8>)> = Vec::new();
        let mut i: usize = 0;
        while i < self.entries.len()
            invariant
                i <= self.entries@.len(),
                entries@.len() == i,
                forall|j: int|
                    0 <= j < i ==> param_view(#[trigger] entries@[j]) == param_view(
                        self.entries@[j],
                    ),
            decreases self.entries.len() - i,
        {
            let value: Vec<u8> = self.entries[i].1.clone();
            assert(value@ =~= self.entries@[i as int].1@);
            entries.push((self.entries[i].0, value));
            i = i + 1;
        }
        let res = Params { entries };
        assert(res@ =~= self@);
        res
    }
}

impl Default for Params {
    fn default() -> (res: Params)
        ensures
            res@ == Seq::<ParamView>::empty(),
    {
        let res = Params { entries: Vec::new() };
        assert(res@ =~= Seq::<ParamView>::empty());
        res
    }
}

impl Decode for Params {
    open spec fn reading(s: Seq<u8>) -> Reading<Seq<ParamView>> {
        params_reading(s)
    }

    fn decode(r: &mut Bytes) -> (res: Result<Params, DecodeError>) {
        let count: u64 = match u64::decode(r) {
            Ok(n) => n,
            Err(e) => return Err(e),
        };
        let mut params: Params = Params::default();
        let mut i: u64 = 0;
        while i < count
            invariant
                i <= count,
                entries_reading((count - i) as nat, params@, bytes_left(*r)) == params_reading(
                    bytes_left(*old(r)),
                ),
            decreases count - i,
        {
            let ghost before = params@;
            let kind: u64 = match u64::decode(r) {
                Ok(k) => k,
                Err(e) => return Err(e),
            };
            if params.has(kind) {
                return Err(DecodeError::DuplicateParameter);
            }
            let value: Vec<u8> = match decode_blob(r) {
                Ok(v) => v,
                Err(e) => return Err(e),
            };
            params.entries.push((kind, value));
            assert(params@ =~= before.push((kind, value@)));
            i = i + 1;
        }
        Ok(params)
    }
}

impl Encode for Params {
    open spec fn writing(v: Seq<ParamView>, w: Seq<u8>) -> Writing {
        params_writing(v, w)
    }

    fn encode(&self, w: &mut Vec<u8>) -> (res: Result<(), EncodeError>) {
        match self.entries.len().encode(w) {
            Ok(()) => {},
            Err(e) => return Err(e),
        }
        let mut i: usize = 0;
        proof {
            assert(self@.skip(0) =~= self@);
        }
        while i < self.entries.len()
            invariant
                i <= self.entries@.len(),
                entries_writing(self@.skip(i as int), w@) == params_writing(self@, old(w)@),
            decreases self.entries.len() - i,
        {
            proof {
                assert(self@.skip(i as int)[0] == param_view(self.entries@[i as int]));
                assert(self@.skip(i as int).drop_first() =~= self@.skip(i + 1));
            }
            match self.entries[i].0.encode(w) {
                Ok(()) => {},
                Err(e) => return Err(e),
            }
            match encode_blob(self.entries[i].1.as_slice(), w) {
                Ok(()) => {},
                Err(e) => return Err(e),
            }
            i = i + 1;
        }
        Ok(())
    }
}

} // verus!
