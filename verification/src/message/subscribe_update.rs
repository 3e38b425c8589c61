//! The change of a subscription.
use super::control::Message;
use super::control::MessageView;
use super::subscribe::lemma_pair;
use super::subscribe::lemma_pair_accepted;
use super::subscribe::pair_encodable;
use super::subscribe::pair_reading;
use super::subscribe::pair_wire;
use super::subscribe::pair_writing;
use super::subscribe::SubscribePair;
use crate::coding::error::DecodeError;
use crate::coding::error::EncodeError;
use crate::coding::params::distinct_params;
use crate::coding::params::lemma_params;
use crate::coding::params::lemma_params_accepted;
use crate::coding::params::params_encodable;
use crate::coding::params::params_reading;
use crate::coding::params::params_wire;
use crate::coding::params::params_writing;
use crate::coding::params::ParamView;
use crate::coding::params::Params;
use crate::coding::traits::appending;
use crate::coding::traits::lemma_join;
use crate::coding::traits::then_read;
use crate::coding::traits::then_write;
use crate::coding::traits::Decode;
use crate::coding::traits::Encode;
use crate::coding::traits::Reading;
use crate::coding::traits::Writing;
use crate::coding::varint::byte_reading;
use crate::coding::varint::lemma_varint_roundtrip;
use crate::coding::varint::varint;
use crate::coding::varint::varint_reading;
use crate::coding::varint::varint_writing;
use crate::coding::varint::VARINT_END;
use crate::session::endpoint::Subscriber;
use crate::session::subscribe::SubscribeFilter;
use bytes::Bytes;
use vstd::prelude::*;

verus! {

/// Sent by the subscriber to request all future objects for the given track.
///
/// Objects will use the provided ID instead of the full track name, to save bytes.
#[derive(Debug)]
pub struct SubscribeUpdate {
    /// The subscription ID
    pub id: u64,
    /// Start and End depending on the Filter Type set
    pub start: SubscribePair,
    pub end_group: u64,
    /// Subscriber Priority
    pub subscriber_priority: u8,
    /// Optional parameters
    pub params: Params,
}

/// What a `SubscribeUpdate` says.
pub struct SubscribeUpdateView {
    pub id: u64,
    pub start: SubscribePair,
    pub end_group: u64,
    pub subscriber_priority: u8,
    pub params: Seq<ParamView>,
}

impl View for SubscribeUpdate {
    type V = SubscribeUpdateView;

    open spec fn view(&self) -> SubscribeUpdateView {
        SubscribeUpdateView {
            id: self.id,
            start: self.start,
            end_group: self.end_group,
            subscriber_priority: self.subscriber_priority,
            params: self.params@,
        }
    }
}

impl Clone for SubscribeUpdate {
    fn clone(&self) -> (res: SubscribeUpdate)
        ensures
            res@ == self@,
    {
        SubscribeUpdate {
            id: self.id,
            start: self.start,
            end_group: self.end_group,
            subscriber_priority: self.subscriber_priority,
            params: self.params.clone(),
        }
    }
}

/// The start and the end group that an update names for a filter.
pub open spec fn update_range(filter: SubscribeFilter) -> (SubscribePair, u64) {
    match filter {
        SubscribeFilter::AbsoluteStart(start) => (start, 0),
        SubscribeFilter::AbsoluteRange(start, end_group) => (start, end_group),
        SubscribeFilter::LatestObject => (SubscribePair { group: 0, object: 0 }, 0),
    }
}

impl SubscribeUpdate {
    /// Makes the update of a subscription to another filter, and sends it.
    pub fn new(
        subscriber: &mut Subscriber,
        id: u64,
        filter: SubscribeFilter,
        subscriber_priority: u8,
        params: Params,
    ) -> (res: SubscribeUpdate)
        ensures
            res@ == (SubscribeUpdateView {
                id,
                start: update_range(filter).0,
                end_group: update_range(filter).1,
                subscriber_priority,
                params: params@,
            }),
            final(subscriber)@ == old(subscriber)@.push(MessageView::SubscribeUpdate(res@)),
    {
        let (start, end_group): (SubscribePair, u64) = match filter {
            SubscribeFilter::AbsoluteStart(start) => (start, 0),
            SubscribeFilter::AbsoluteRange(start, end_group) => (start, end_group),
            SubscribeFilter::LatestObject => (SubscribePair { group: 0, object: 0 }, 0),
        };

        let update = SubscribeUpdate { id, start, end_group, subscriber_priority, params };

        subscriber.send_message(Message::SubscribeUpdate(update.clone()));

        update
    }
}

/// The outcome of reading a `SubscribeUpdate`.
pub open spec fn update_reading(s: Seq<u8>) -> Reading<SubscribeUpdateView> {
    then_read(
        varint_reading(s),
        |id: u64, s: Seq<u8>|
            then_read(
                pair_reading(s),
                |start: SubscribePair, s: Seq<u8>|
                    then_read(
                        varint_reading(s),
                        |end_group: u64, s: Seq<u8>|
                            then_read(
                                byte_reading(s),
                                |subscriber_priority: u8, s: Seq<u8>|
                                    then_read(
                                        params_reading(s),
                                        |params: Seq<ParamView>, s: Seq<u8>|
                                            (
                                                Ok::<SubscribeUpdateView, DecodeError>(
                                                    SubscribeUpdateView {
                                                        id,
                                                        start,
                                                        end_group,
                                                        subscriber_priority,
                                                        params,
                                                    },
                                                ),
                                                s,
                                            ),
                                    ),
                            ),
                    ),
            ),
    )
}

impl Decode for SubscribeUpdate {
    open spec fn reading(s: Seq<u8>) -> Reading<SubscribeUpdateView> {
        update_reading(s)
    }

    fn decode(r: &mut Bytes) -> (res: Result<SubscribeUpdate, DecodeError>) {
        let id: u64 = match u64::decode(r) {
            Ok(v) => v,
            Err(e) => return Err(e),
        };

        let start: SubscribePair = match SubscribePair::decode(r) {
            Ok(v) => v,
            Err(e) => return Err(e),
        };
        let end_group: u64 = match u64::decode(r) {
            Ok(v) => v,
            Err(e) => return Err(e),
        };

        let subscriber_priority: u8 = match u8::decode(r) {
            Ok(v) => v,
            Err(e) => return Err(e),
        };

        let params: Params = match Params::decode(r) {
            Ok(v) => v,
            Err(e) => return Err(e),
        };

        Ok(SubscribeUpdate { id, start, end_group, subscriber_priority, params })
    }
}

/// The outcome of writing a `SubscribeUpdate`.
pub open spec fn update_writing(m: SubscribeUpdateView, w: Seq<u8>) -> Writing {
    let w = varint_writing(m.id, w);
    let w = then_write(w, |w: Seq<u8>| pair_writing(m.start, w));
    let w = then_write(w, |w: Seq<u8>| varint_writing(m.end_group, w));
    let w = then_write(w, |w: Seq<u8>| appending(w, seq![m.subscriber_priority]));
    then_write(w, |w: Seq<u8>| params_writing(m.params, w))
}

impl Encode for SubscribeUpdate {
    open spec fn writing(v: SubscribeUpdateView, w: Seq<u8>) -> Writing {
        update_writing(v, w)
    }

    fn encode(&self, w: &mut Vec<u8>) -> (res: Result<(), EncodeError>) {
        match self.id.encode(w) {
            Ok(()) => {},
            Err(e) => return Err(e),
        }

        match self.start.encode(w) {
            Ok(()) => {},
            Err(e) => return Err(e),
        }
        match self.end_group.encode(w) {
            Ok(()) => {},
            Err(e) => return Err(e),
        }

        match self.subscriber_priority.encode(w) {
            Ok(()) => {},
            Err(e) => return Err(e),
        }

        self.params.encode(w)
    }
}

impl SubscribeUpdateView {
    /// Whether the message can be written.
    pub open spec fn encodable(self) -> bool {
        &&& self.id < VARINT_END
        &&& pair_encodable(self.start)
        &&& self.end_group < VARINT_END
        &&& params_encodable(self.params)
    }

    /// The bytes of the message.
    pub open spec fn wire(self) -> Seq<u8> {
        varint(self.id) + pair_wire(self.start) + varint(self.end_group)
            + seq![self.subscriber_priority] + params_wire(self.params)
    }
}

/// A message that can be written is appended as its `wire` form where that fits in the buffer.
pub proof fn update_is_written_as_its_wire_form(m: SubscribeUpdateView, w: Seq<u8>)
    requires
        m.encodable(),
        w.len() + m.wire().len() <= isize::MAX,
    ensures
        update_writing(m, w) == (w + m.wire(), Ok::<(), EncodeError>(())),
{
    let none = Seq::<u8>::empty();
    let (a, b, c, d, e) = (
        varint(m.id),
        pair_wire(m.start),
        varint(m.end_group),
        seq![m.subscriber_priority],
        params_wire(m.params),
    );
    lemma_join(w, a, b);
    lemma_join(w, a + b, c);
    lemma_join(w, a + b + c, d);
    lemma_join(w, a + b + c + d, e);
    lemma_pair(m.start, w + a, none);
    lemma_params(m.params, w + a + b + c + d, none);
}

/// What is written of a message reads back as that message, and the reading stops right behind it.
pub proof fn update_reads_back(m: SubscribeUpdateView, rest: Seq<u8>)
    requires
        m.encodable(),
    ensures
        update_reading(m.wire() + rest) == (Ok::<SubscribeUpdateView, DecodeError>(m), rest),
{
    let none = Seq::<u8>::empty();
    let (a, b, c, d, e) = (
        varint(m.id),
        pair_wire(m.start),
        varint(m.end_group),
        seq![m.subscriber_priority],
        params_wire(m.params),
    );
    lemma_join(a + b + c + d, e, rest);
    lemma_join(a + b + c, d, e + rest);
    lemma_join(a + b, c, d + (e + rest));
    lemma_join(a, b, c + (d + (e + rest)));
    lemma_varint_roundtrip(m.id, b + (c + (d + (e + rest))));
    lemma_pair(m.start, none, c + (d + (e + rest)));
    lemma_varint_roundtrip(m.end_group, d + (e + rest));
    assert((d + (e + rest)).skip(1) =~= e + rest);
    lemma_params(m.params, none, rest);
}

/// Whatever update is written without an error reads back, from behind what was in the buffer: the
/// update that is read is the one that was written, and the reading stops right behind it. The update
/// names no parameter twice, which is not read.
pub proof fn accepted_update_reads_back(m: SubscribeUpdateView, w: Seq<u8>, rest: Seq<u8>)
    requires
        update_writing(m, w).1 is Ok,
        distinct_params(m.params),
    ensures
        m.encodable(),
        update_writing(m, w).0 == w + m.wire(),
        update_writing(m, w).0.skip(w.len() as int) == m.wire(),
        update_reading(update_writing(m, w).0.skip(w.len() as int) + rest) == (
            Ok::<SubscribeUpdateView, DecodeError>(m),
            rest,
        ),
{
    let (a, b, c, d, e) = (
        varint(m.id),
        pair_wire(m.start),
        varint(m.end_group),
        seq![m.subscriber_priority],
        params_wire(m.params),
    );
    lemma_join(w, a, b);
    lemma_join(w, a + b, c);
    lemma_join(w, a + b + c, d);
    lemma_join(w, a + b + c + d, e);
    lemma_pair_accepted(m.start, w + a);
    lemma_params_accepted(m.params, w + a + b + c + d);
    assert((w + m.wire()).skip(w.len() as int) =~= m.wire());
    update_reads_back(m, rest);
}

} // verus!
