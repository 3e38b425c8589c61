//! The request for a track.
use crate::coding::blob::blob_encodable;
use crate::coding::blob::blob_writing;
use crate::coding::blob::lemma_text;
use crate::coding::blob::text_reading;
use crate::coding::blob::text_wire;
use crate::coding::error::DecodeError;
use crate::coding::error::EncodeError;
use crate::coding::blob::lemma_blob_accepted;
use crate::coding::params::distinct_params;
use crate::coding::params::lemma_params;
use crate::coding::params::lemma_params_accepted;
use crate::coding::params::params_encodable;
use crate::coding::params::params_reading;
use crate::coding::params::params_wire;
use crate::coding::params::params_writing;
use crate::coding::params::ParamView;
use crate::coding::params::Params;
use crate::coding::traits::appending;
use crate::coding::traits::lemma_join;
use crate::coding::traits::then_read;
use crate::coding::traits::then_write;
use crate::coding::traits::Decode;
use crate::coding::traits::Encode;
use crate::coding::traits::Reading;
use crate::coding::traits::Writing;
use crate::coding::tuple::lemma_tuple;
use crate::coding::tuple::lemma_tuple_accepted;
use crate::coding::tuple::tuple_encodable;
use crate::coding::tuple::tuple_reading;
use crate::coding::tuple::tuple_wire;
use crate::coding::tuple::tuple_writing;
use crate::coding::tuple::Tuple;
use crate::coding::varint::byte_reading;
use crate::coding::varint::lemma_varint_roundtrip;
use crate::coding::varint::varint;
use crate::coding::varint::varint_reading;
use crate::coding::varint::varint_writing;
use crate::coding::varint::VARINT_END;
use crate::coding::wire::remaining;
use bytes::Bytes;
use std::cmp::Ordering;
use vstd::prelude::*;
use vstd::utf8::encode_utf8;

verus! {

/// A location in a track: a group, and an object in that group. Locations are ordered by group, and
/// within one group by object.
#[derive(Clone, Copy, Debug, PartialEq, Eq, Structural)]
pub struct SubscribePair {
    pub group: u64,
    pub object: u64,
}

impl SubscribePair {
    /// Whether this location comes before another.
    pub open spec fn before(self, other: SubscribePair) -> bool {
        self.group < other.group || (self.group == other.group && self.object < other.object)
    }

    /// Whether this location comes before another or is the same.
    pub open spec fn up_to(self, other: SubscribePair) -> bool {
        self.before(other) || self == other
    }
}

impl PartialOrd for SubscribePair {
    fn partial_cmp(&self, other: &SubscribePair) -> (res: Option<Ordering>) {
        if self.group < other.group {
            Some(Ordering::Less)
        } else if self.group > other.group {
            Some(Ordering::Greater)
        } else if self.object < other.object {
            Some(Ordering::Less)
        } else if self.object > other.object {
            Some(Ordering::Greater)
        } else {
            Some(Ordering::Equal)
        }
    }
}

impl vstd::std_specs::cmp::PartialOrdSpecImpl for SubscribePair {
    open spec fn obeys_partial_cmp_spec() -> bool {
        true
    }

    open spec fn partial_cmp_spec(&self, other: &SubscribePair) -> Option<Ordering> {
        if self.before(*other) {
            Some(Ordering::Less)
        } else if other.before(*self) {
            Some(Ordering::Greater)
        } else {
            Some(Ordering::Equal)
        }
    }
}

/// Locations are totally ordered, groups first.
pub proof fn locations_are_totally_ordered(a: SubscribePair, b: SubscribePair, c: SubscribePair)
    ensures
        a.before(b) || a == b || b.before(a),
        !(a.before(b) && b.before(a)),
        !a.before(a),
        a.before(b) && b.before(c) ==> a.before(c),
        a.group < b.group ==> a.before(b),
        a.group == b.group ==> (a.before(b) <==> a.object < b.object),
{
}

/// The outcome of reading a location.
pub open spec fn pair_reading(s: Seq<u8>) -> Reading<SubscribePair> {
    then_read(
        varint_reading(s),
        |group: u64, s: Seq<u8>|
            then_read(
                varint_reading(s),
                |object: u64, s: Seq<u8>|
                    (Ok::<SubscribePair, DecodeError>(SubscribePair { group, object }), s),
            ),
    )
}

/// The outcome of writing a location.
pub open spec fn pair_writing(p: SubscribePair, w: Seq<u8>) -> Writing {
    then_write(varint_writing(p.group, w), |w: Seq<u8>| varint_writing(p.object, w))
}

/// The bytes of a location.
pub open spec fn pair_wire(p: SubscribePair) -> Seq<u8> {
    varint(p.group) + varint(p.object)
}

/// Whether a location can be written.
pub open spec fn pair_encodable(p: SubscribePair) -> bool {
    p.group < VARINT_END && p.object < VARINT_END
}

/// A location is written as `pair_wire`, and reads back.
pub proof fn lemma_pair(p: SubscribePair, w: Seq<u8>, rest: Seq<u8>)
    requires
        pair_encodable(p),
    ensures
        pair_wire(p).len() >= 2,
        w.len() + pair_wire(p).len() <= isize::MAX ==> pair_writing(p, w) == (
            w + pair_wire(p),
            Ok::<(), EncodeError>(()),
        ),
        pair_reading(pair_wire(p) + rest) == (Ok::<SubscribePair, DecodeError>(p), rest),
{
    lemma_varint_roundtrip(p.group, varint(p.object) + rest);
    lemma_varint_roundtrip(p.object, rest);
    assert(pair_wire(p) + rest =~= varint(p.group) + (varint(p.object) + rest));
    assert(w + pair_wire(p) =~= (w + varint(p.group)) + varint(p.object));
}

/// A location that has been written can be written, and was written as `pair_wire`.
pub proof fn lemma_pair_accepted(p: SubscribePair, w: Seq<u8>)
    requires
        pair_writing(p, w).1 is Ok,
    ensures
        pair_encodable(p),
        pair_writing(p, w).0 == w + pair_wire(p),
        w.len() + pair_wire(p).len() <= isize::MAX,
{
    lemma_join(w, varint(p.group), varint(p.object));
}

impl View for SubscribePair {
    type V = SubscribePair;

    open spec fn view(&self) -> SubscribePair {
        *self
    }
}

impl Decode for SubscribePair {
    open spec fn reading(s: Seq<u8>) -> Reading<SubscribePair> {
        pair_reading(s)
    }

    fn decode(r: &mut Bytes) -> (res: Result<SubscribePair, DecodeError>) {
        let group: u64 = match u64::decode(r) {
            Ok(v) => v,
            Err(e) => return Err(e),
        };
        let object: u64 = match u64::decode(r) {
            Ok(v) => v,
            Err(e) => return Err(e),
        };
        Ok(SubscribePair { group, object })
    }
}

impl Encode for SubscribePair {
    open spec fn writing(v: SubscribePair, w: Seq<u8>) -> Writing {
        pair_writing(v, w)
    }

    fn encode(&self, w: &mut Vec<u8>) -> (res: Result<(), EncodeError>) {
        match self.group.encode(w) {
            Ok(()) => {},
            Err(e) => return Err(e),
        }
        self.object.encode(w)
    }
}

/// In which order the groups of a track are sent.
#[derive(Clone, Copy, Debug, PartialEq, Eq, Structural)]
pub enum GroupOrder {
    /// As the publisher prefers.
    Publisher,
    Ascending,
    Descending,
}

impl GroupOrder {
    /// The byte that stands for the order.
    pub open spec fn code(self) -> u8 {
        match self {
            GroupOrder::Publisher => 0,
            GroupOrder::Ascending => 1,
            GroupOrder::Descending => 2,
        }
    }
}

/// The outcome of reading a group order.
pub open spec fn group_order_reading(s: Seq<u8>) -> Reading<GroupOrder> {
    then_read(
        byte_reading(s),
        |b: u8, s: Seq<u8>|
            (
                if b == 0 {
                    Ok(GroupOrder::Publisher)
                } else if b == 1 {
                    Ok(GroupOrder::Ascending)
                } else if b == 2 {
                    Ok(GroupOrder::Descending)
                } else {
                    Err(DecodeError::InvalidGroupOrder)
                },
                s,
            ),
    )
}

impl View for GroupOrder {
    type V = GroupOrder;

    open spec fn view(&self) -> GroupOrder {
        *self
    }
}

impl Decode for GroupOrder {
    open spec fn reading(s: Seq<u8>) -> Reading<GroupOrder> {
        group_order_reading(s)
    }

    fn decode(r: &mut Bytes) -> (res: Result<GroupOrder, DecodeError>) {
        match u8::decode(r) {
            Ok(b) => if b == 0 {
                Ok(GroupOrder::Publisher)
            } else if b == 1 {
                Ok(GroupOrder::Ascending)
            } else if b == 2 {
                Ok(GroupOrder::Descending)
            } else {
                Err(DecodeError::InvalidGroupOrder)
            },
            Err(e) => Err(e),
        }
    }
}

impl Encode for GroupOrder {
    open spec fn writing(v: GroupOrder, w: Seq<u8>) -> Writing {
        appending(w, seq![v.code()])
    }

    fn encode(&self, w: &mut Vec<u8>) -> (res: Result<(), EncodeError>) {
        let code: u8 = match self {
            GroupOrder::Publisher => 0,
            GroupOrder::Ascending => 1,
            GroupOrder::Descending => 2,
        };
        code.encode(w)
    }
}

/// Which part of a track is asked for.
#[derive(Clone, Copy, Debug, PartialEq, Eq, Structural)]
pub enum FilterType {
    /// From the latest object on.
    LatestObject,
    /// From a given location on.
    AbsoluteStart,
    /// From a given location up to the end of a given group.
    AbsoluteRange,
}

impl FilterType {
    /// The number that stands for the filter type.
    pub open spec fn code(self) -> u64 {
        match self {
            FilterType::LatestObject => 2,
            FilterType::AbsoluteStart => 3,
            FilterType::AbsoluteRange => 4,
        }
    }
}

/// The outcome of reading a filter type.
pub open spec fn filter_type_reading(s: Seq<u8>) -> Reading<FilterType> {
    then_read(
        varint_reading(s),
        |n: u64, s: Seq<u8>|
            (
                if n == 2 {
                    Ok(FilterType::LatestObject)
                } else if n == 3 {
                    Ok(FilterType::AbsoluteStart)
                } else if n == 4 {
                    Ok(FilterType::AbsoluteRange)
                } else {
                    Err(DecodeError::InvalidFilterType)
                },
                s,
            ),
    )
}

impl View for FilterType {
    type V = FilterType;

    open spec fn view(&self) -> FilterType {
        *self
    }
}

impl Decode for FilterType {
    open spec fn reading(s: Seq<u8>) -> Reading<FilterType> {
        filter_type_reading(s)
    }

    fn decode(r: &mut Bytes) -> (res: Result<FilterType, DecodeError>) {
        match u64::decode(r) {
            Ok(n) => if n == 2 {
                Ok(FilterType::LatestObject)
            } else if n == 3 {
                Ok(FilterType::AbsoluteStart)
            } else if n == 4 {
                Ok(FilterType::AbsoluteRange)
            } else {
                Err(DecodeError::InvalidFilterType)
            },
            Err(e) => Err(e),
        }
    }
}

impl Encode for FilterType {
    open spec fn writing(v: FilterType, w: Seq<u8>) -> Writing {
        varint_writing(v.code(), w)
    }

    fn encode(&self, w: &mut Vec<u8>) -> (res: Result<(), EncodeError>) {
        let code: u64 = match self {
            FilterType::LatestObject => 2,
            FilterType::AbsoluteStart => 3,
            FilterType::AbsoluteRange => 4,
        };
        code.encode(w)
    }
}

/// Sent by the subscriber to request all future objects for the given track.
///
/// Objects will use the provided ID instead of the full track name, to save bytes.
#[derive(Debug)]
pub struct Subscribe {
    /// The subscription ID
    pub id: u64,
    /// Track properties
    pub track_alias: u64,
    pub track_namespace: Tuple,
    pub track_name: String,
    /// Subscriber Priority
    pub subscriber_priority: u8,
    /// Group Order
    pub group_order: GroupOrder,
    /// Filter type
    pub filter_type: FilterType,
    /// Start and End depending on the Filter Type set
    pub start: Option<SubscribePair>,
    pub end_group: Option<u64>,
    /// Optional parameters
    pub params: Params,
}

/// What a `Subscribe` says.
pub struct SubscribeView {
    pub id: u64,
    pub track_alias: u64,
    pub track_namespace: Seq<Seq<u8>>,
    pub track_name: Seq<char>,
    pub subscriber_priority: u8,
    pub group_order: GroupOrder,
    pub filter_type: FilterType,
    pub start: Option<SubscribePair>,
    pub end_group: Option<u64>,
    pub params: Seq<ParamView>,
}

impl View for Subscribe {
    type V = SubscribeView;

    open spec fn view(&self) -> SubscribeView {
        SubscribeView {
            id: self.id,
            track_alias: self.track_alias,
            track_namespace: self.track_namespace@,
            track_name: self.track_name@,
            subscriber_priority: self.subscriber_priority,
            group_order: self.group_order,
            filter_type: self.filter_type,
            start: self.start,
            end_group: self.end_group,
            params: self.params@,
        }
    }
}

impl Clone for Subscribe {
    fn clone(&self) -> (res: Subscribe)
        ensures
            res@ == self@,
    {
        Subscribe {
            id: self.id,
            track_alias: self.track_alias,
            track_namespace: self.track_namespace.clone(),
            track_name: self.track_name.clone(),
            subscriber_priority: self.subscriber_priority,
            group_order: self.group_order,
            filter_type: self.filter_type,
            start: self.start,
            end_group: self.end_group,
            params: self.params.clone(),
        }
    }
}

impl SubscribeView {
    /// Whether the message names the locations that its filter type asks for.
    pub open spec fn complete(self) -> bool {
        match self.filter_type {
            FilterType::AbsoluteStart => self.start is Some,
            FilterType::AbsoluteRange => self.start is Some && self.end_group is Some,
            FilterType::LatestObject => true,
        }
    }

    /// Whether the message names those locations and no others.
    pub open spec fn exact(self) -> bool {
        &&& self.complete()
        &&& self.filter_type == FilterType::LatestObject ==> self.start is None
        &&& self.filter_type != FilterType::AbsoluteRange ==> self.end_group is None
    }

    /// Whether the message can be written.
    pub open spec fn encodable(self) -> bool {
        &&& self.id < VARINT_END
        &&& self.track_alias < VARINT_END
        &&& tuple_encodable(self.track_namespace)
        &&& blob_encodable(encode_utf8(self.track_name))
        &&& self.complete()
        &&& self.start matches Some(p) ==> pair_encodable(p)
        &&& self.end_group matches Some(g) ==> g < VARINT_END
        &&& params_encodable(self.params)
    }

    /// The bytes of the locations that the filter type asks for.
    pub open spec fn range_wire(self) -> Seq<u8> {
        match self.filter_type {
            FilterType::AbsoluteStart => pair_wire(self.start->Some_0),
            FilterType::AbsoluteRange => pair_wire(self.start->Some_0) + varint(
                self.end_group->Some_0,
            ),
            FilterType::LatestObject => Seq::empty(),
        }
    }
}

/// The outcome of reading the locations that a filter type asks for. A buffer that is too short for
/// them and the number of parameters is told apart right away.
pub open spec fn range_reading(filter_type: FilterType, s: Seq<u8>) -> Reading<
    (Option<SubscribePair>, Option<u64>),
> {
    match filter_type {
        FilterType::AbsoluteStart => if s.len() < 2 {
            (Err(DecodeError::MissingField), s)
        } else {
            then_read(
                pair_reading(s),
                |start: SubscribePair, s: Seq<u8>|
                    (
                        Ok::<(Option<SubscribePair>, Option<u64>), DecodeError>(
                            (Some(start), None),
                        ),
                        s,
                    ),
            )
        },
        FilterType::AbsoluteRange => if s.len() < 4 {
            (Err(DecodeError::MissingField), s)
        } else {
            then_read(
                pair_reading(s),
                |start: SubscribePair, s: Seq<u8>|
                    then_read(
                        varint_reading(s),
                        |end_group: u64, s: Seq<u8>|
                            (
                                Ok::<(Option<SubscribePair>, Option<u64>), DecodeError>(
                                    (Some(start), Some(end_group)),
                                ),
                                s,
                            ),
                    ),
            )
        },
        FilterType::LatestObject => (Ok((None, None)), s),
    }
}

/// The outcome of reading a `Subscribe`.
pub open spec fn subscribe_reading(s: Seq<u8>) -> Reading<SubscribeView> {
    then_read(
        varint_reading(s),
        |id: u64, s: Seq<u8>|
            then_read(
                varint_reading(s),
                |track_alias: u64, s: Seq<u8>|
                    then_read(
                        tuple_reading(s),
                        |track_namespace: Seq<Seq<u8>>, s: Seq<u8>|
                            then_read(
                                text_reading(s),
                                |track_name: Seq<char>, s: Seq<u8>|
                                    order_reading(id, track_alias, track_namespace, track_name, s),
                            ),
                    ),
            ),
    )
}

/// The outcome of reading a `Subscribe` from its priority on.
pub open spec fn order_reading(
    id: u64,
    track_alias: u64,
    track_namespace: Seq<Seq<u8>>,
    track_name: Seq<char>,
    s: Seq<u8>,
) -> Reading<SubscribeView> {
    then_read(
        byte_reading(s),
        |subscriber_priority: u8, s: Seq<u8>|
            then_read(
                group_order_reading(s),
                |group_order: GroupOrder, s: Seq<u8>|
                    then_read(
                        filter_type_reading(s),
                        |filter_type: FilterType, s: Seq<u8>|
                            then_read(
                                range_reading(filter_type, s),
                                |range: (Option<SubscribePair>, Option<u64>), s: Seq<u8>|
                                    then_read(
                                        params_reading(s),
                                        |params: Seq<ParamView>, s: Seq<u8>|
                                            (
                                                Ok::<SubscribeView, DecodeError>(
                                                    SubscribeView {
                                                        id,
                                                        track_alias,
                                                        track_namespace,
                                                        track_name,
                                                        subscriber_priority,
                                                        group_order,
                                                        filter_type,
                                                        start: range.0,
                                                        end_group: range.1,
                                                        params,
                                                    },
                                                ),
                                                s,
                                            ),
                                    ),
                            ),
                    ),
            ),
    )
}

impl Decode for Subscribe {
    open spec fn reading(s: Seq<u8>) -> Reading<SubscribeView> {
        subscribe_reading(s)
    }

    fn decode(r: &mut Bytes) -> (res: Result<Subscribe, DecodeError>) {
        let id: u64 = match u64::decode(r) {
            Ok(v) => v,
            Err(e) => return Err(e),
        };
        let track_alias: u64 = match u64::decode(r) {
            Ok(v) => v,
            Err(e) => return Err(e),
        };
        let track_namespace: Tuple = match Tuple::decode(r) {
            Ok(v) => v,
            Err(e) => return Err(e),
        };
        let track_name: String = match String::decode(r) {
            Ok(v) => v,
            Err(e) => return Err(e),
        };

        let subscriber_priority: u8 = match u8::decode(r) {
            Ok(v) => v,
            Err(e) => return Err(e),
        };
        let group_order: GroupOrder = match GroupOrder::decode(r) {
            Ok(v) => v,
            Err(e) => return Err(e),
        };

        let filter_type: FilterType = match FilterType::decode(r) {
            Ok(v) => v,
            Err(e) => return Err(e),
        };

        let start: Option<SubscribePair>;
        let end_group: Option<u64>;
        match filter_type {
            FilterType::AbsoluteStart => {
                if remaining(r) < 2 {
                    return Err(DecodeError::MissingField);
                }
                start = match SubscribePair::decode(r) {
                    Ok(v) => Some(v),
                    Err(e) => return Err(e),
                };
                end_group = None;
            },
            FilterType::AbsoluteRange => {
                if remaining(r) < 4 {
                    return Err(DecodeError::MissingField);
                }
                start = match SubscribePair::decode(r) {
                    Ok(v) => Some(v),
                    Err(e) => return Err(e),
                };
                end_group = match u64::decode(r) {
                    Ok(v) => Some(v),
                    Err(e) => return Err(e),
                };
            },
            FilterType::LatestObject => {
                start = None;
                end_group = None;
            },
        }

        let params: Params = match Params::decode(r) {
            Ok(v) => v,
            Err(e) => return Err(e),
        };

        Ok(
            Subscribe {
                id,
                track_alias,
                track_namespace,
                track_name,
                subscriber_priority,
                group_order,
                filter_type,
                start,
                end_group,
                params,
            },
        )
    }
}

/// The outcome of writing the locations that the filter type of a message asks for.
pub open spec fn range_writing(m: SubscribeView, w: Seq<u8>) -> Writing {
    match m.filter_type {
        FilterType::LatestObject => (w, Ok(())),
        FilterType::AbsoluteStart => match m.start {
            Some(start) => pair_writing(start, w),
            None => (w, Err(EncodeError::MissingField)),
        },
        FilterType::AbsoluteRange => match m.start {
            Some(start) => then_write(
                pair_writing(start, w),
                |w: Seq<u8>|
                    match m.end_group {
                        Some(end_group) => varint_writing(end_group, w),
                        None => (w, Err(EncodeError::MissingField)),
                    },
            ),
            None => (w, Err(EncodeError::MissingField)),
        },
    }
}

/// The outcome of writing what a `Subscribe` says before its priority.
pub open spec fn track_writing(m: SubscribeView, w: Seq<u8>) -> Writing {
    let w = varint_writing(m.id, w);
    let w = then_write(w, |w: Seq<u8>| varint_writing(m.track_alias, w));
    let w = then_write(w, |w: Seq<u8>| tuple_writing(m.track_namespace, w));
    then_write(w, |w: Seq<u8>| blob_writing(encode_utf8(m.track_name), w))
}

/// The outcome of writing what a `Subscribe` says from its priority up to its filter type.
pub open spec fn order_writing(m: SubscribeView, w: Seq<u8>) -> Writing {
    let w = appending(w, seq![m.subscriber_priority]);
    let w = then_write(w, |w: Seq<u8>| appending(w, seq![m.group_order.code()]));
    then_write(w, |w: Seq<u8>| varint_writing(m.filter_type.code(), w))
}

/// The outcome of writing a `Subscribe`.
pub open spec fn subscribe_writing(m: SubscribeView, w: Seq<u8>) -> Writing {
    let w = track_writing(m, w);
    let w = then_write(w, |w: Seq<u8>| order_writing(m, w));
    let w = then_write(w, |w: Seq<u8>| range_writing(m, w));
    then_write(w, |w: Seq<u8>| params_writing(m.params, w))
}

impl Encode for Subscribe {
    open spec fn writing(v: SubscribeView, w: Seq<u8>) -> Writing {
        subscribe_writing(v, w)
    }

    fn encode(&self, w: &mut Vec<u8>) -> (res: Result<(), EncodeError>) {
        match self.id.encode(w) {
            Ok(()) => {},
            Err(e) => return Err(e),
        }
        match self.track_alias.encode(w) {
            Ok(()) => {},
            Err(e) => return Err(e),
        }
        match self.track_namespace.encode(w) {
            Ok(()) => {},
            Err(e) => return Err(e),
        }
        match self.track_name.encode(w) {
            Ok(()) => {},
            Err(e) => return Err(e),
        }

        match self.subscriber_priority.encode(w) {
            Ok(()) => {},
            Err(e) => return Err(e),
        }

        match self.group_order.encode(w) {
            Ok(()) => {},
            Err(e) => return Err(e),
        }

        match self.filter_type.encode(w) {
            Ok(()) => {},
            Err(e) => return Err(e),
        }

        if self.filter_type == FilterType::AbsoluteStart || self.filter_type
            == FilterType::AbsoluteRange {
            if let Some(start) = &self.start {
                match start.encode(w) {
                    Ok(()) => {},
                    Err(e) => return Err(e),
                }
            } else {
                return Err(EncodeError::MissingField);
            }
        }

        if self.filter_type == FilterType::AbsoluteRange {
            if let Some(end_group) = &self.end_group {
                match end_group.encode(w) {
                    Ok(()) => {},
                    Err(e) => return Err(e),
                }
            } else {
                return Err(EncodeError::MissingField);
            }
        }

        self.params.encode(w)
    }
}

impl SubscribeView {
    /// The bytes of the message before its priority.
    pub open spec fn track_wire(self) -> Seq<u8> {
        varint(self.id) + varint(self.track_alias) + tuple_wire(self.track_namespace) + text_wire(
            self.track_name,
        )
    }

    /// The bytes of the message from its priority up to its filter type.
    pub open spec fn order_wire(self) -> Seq<u8> {
        seq![self.subscriber_priority] + seq![self.group_order.code()] + varint(
            self.filter_type.code(),
        )
    }

    /// The bytes of the message.
    pub open spec fn wire(self) -> Seq<u8> {
        self.track_wire() + self.order_wire() + self.range_wire() + params_wire(self.params)
    }
}

proof fn lemma_track_writing(m: SubscribeView, w: Seq<u8>)
    requires
        m.encodable(),
        w.len() + m.track_wire().len() <= isize::MAX,
    ensures
        track_writing(m, w) == (w + m.track_wire(), Ok::<(), EncodeError>(())),
{
    let none = Seq::<u8>::empty();
    let (a, b, c, d) = (
        varint(m.id),
        varint(m.track_alias),
        tuple_wire(m.track_namespace),
        text_wire(m.track_name),
    );
    lemma_join(w, a, b);
    lemma_join(w, a + b, c);
    lemma_join(w, a + b + c, d);
    lemma_tuple(m.track_namespace, w + a + b, none);
    lemma_text(m.track_name, w + a + b + c, none);
}

proof fn lemma_order_writing(m: SubscribeView, w: Seq<u8>)
    requires
        w.len() + m.order_wire().len() <= isize::MAX,
    ensures
        order_writing(m, w) == (w + m.order_wire(), Ok::<(), EncodeError>(())),
{
    let (a, b, c) = (
        seq![m.subscriber_priority],
        seq![m.group_order.code()],
        varint(m.filter_type.code()),
    );
    lemma_join(w, a, b);
    lemma_join(w, a + b, c);
}

proof fn lemma_range_writing(m: SubscribeView, w: Seq<u8>)
    requires
        m.encodable(),
        w.len() + m.range_wire().len() <= isize::MAX,
    ensures
        range_writing(m, w) == (w + m.range_wire(), Ok::<(), EncodeError>(())),
{
    match m.filter_type {
        FilterType::AbsoluteStart => {
            lemma_pair(m.start->Some_0, w, Seq::empty());
        },
        FilterType::AbsoluteRange => {
            lemma_pair(m.start->Some_0, w, Seq::empty());
            lemma_join(w, pair_wire(m.start->Some_0), varint(m.end_group->Some_0));
        },
        FilterType::LatestObject => {
            assert(w + m.range_wire() =~= w);
        },
    }
}

/// A message that can be written is appended as its `wire` form where that fits in the buffer.
pub proof fn subscribe_is_written_as_its_wire_form(m: SubscribeView, w: Seq<u8>)
    requires
        m.encodable(),
        w.len() + m.wire().len() <= isize::MAX,
    ensures
        subscribe_writing(m, w) == (w + m.wire(), Ok::<(), EncodeError>(())),
{
    let (a, b, c, d) = (
        m.track_wire(),
        m.order_wire(),
        m.range_wire(),
        params_wire(m.params),
    );
    lemma_join(w, a, b);
    lemma_join(w, a + b, c);
    lemma_join(w, a + b + c, d);
    lemma_track_writing(m, w);
    lemma_order_writing(m, w + a);
    lemma_range_writing(m, w + a + b);
    lemma_params(m.params, w + a + b + c, Seq::empty());
}

proof fn lemma_range_reading(m: SubscribeView, rest: Seq<u8>)
    requires
        m.encodable(),
        m.exact(),
        rest.len() >= 1,
    ensures
        range_reading(m.filter_type, m.range_wire() + rest) == (
            Ok::<(Option<SubscribePair>, Option<u64>), DecodeError>((m.start, m.end_group)),
            rest,
        ),
{
    let none = Seq::<u8>::empty();
    match m.filter_type {
        FilterType::AbsoluteStart => {
            lemma_pair(m.start->Some_0, none, rest);
        },
        FilterType::AbsoluteRange => {
            let end = varint(m.end_group->Some_0);
            lemma_join(pair_wire(m.start->Some_0), end, rest);
            lemma_pair(m.start->Some_0, none, end + rest);
            lemma_varint_roundtrip(m.end_group->Some_0, rest);
        },
        FilterType::LatestObject => {
            assert(m.range_wire() + rest =~= rest);
        },
    }
}

proof fn lemma_order_reading(m: SubscribeView, rest: Seq<u8>)
    requires
        m.encodable(),
        m.exact(),
    ensures
        order_reading(
            m.id,
            m.track_alias,
            m.track_namespace,
            m.track_name,
            m.order_wire() + (m.range_wire() + (params_wire(m.params) + rest)),
        ) == (Ok::<SubscribeView, DecodeError>(m), rest),
{
    let s3 = params_wire(m.params) + rest;
    let s2 = m.range_wire() + s3;
    let (a, b, c) = (
        seq![m.subscriber_priority],
        seq![m.group_order.code()],
        varint(m.filter_type.code()),
    );
    lemma_join(a + b, c, s2);
    lemma_join(a, b, c + s2);
    assert((a + (b + (c + s2))).skip(1) =~= b + (c + s2));
    assert((b + (c + s2)).skip(1) =~= c + s2);
    lemma_varint_roundtrip(m.filter_type.code(), s2);
    lemma_params(m.params, Seq::empty(), rest);
    lemma_range_reading(m, s3);
}

/// What is written of a message reads back as that message, and the reading stops right behind it.
///
/// Locations that the filter type does not ask for are not written, so a message that carries any
/// does not come back as it was.
pub proof fn subscribe_reads_back(m: SubscribeView, rest: Seq<u8>)
    requires
        m.encodable(),
        m.exact(),
    ensures
        subscribe_reading(m.wire() + rest) == (Ok::<SubscribeView, DecodeError>(m), rest),
{
    let none = Seq::<u8>::empty();
    let (order, range, params) = (m.order_wire(), m.range_wire(), params_wire(m.params));
    lemma_join(m.track_wire() + order + range, params, rest);
    lemma_join(m.track_wire() + order, range, params + rest);
    lemma_join(m.track_wire(), order, range + (params + rest));
    let s4 = order + (range + (params + rest));
    let (a, b, c, d) = (
        varint(m.id),
        varint(m.track_alias),
        tuple_wire(m.track_namespace),
        text_wire(m.track_name),
    );
    lemma_join(a + b + c, d, s4);
    lemma_join(a + b, c, d + s4);
    lemma_join(a, b, c + (d + s4));
    lemma_varint_roundtrip(m.id, b + (c + (d + s4)));
    lemma_varint_roundtrip(m.track_alias, c + (d + s4));
    lemma_tuple(m.track_namespace, none, d + s4);
    lemma_text(m.track_name, none, s4);
    lemma_order_reading(m, rest);
}

proof fn lemma_track_accepted(m: SubscribeView, w: Seq<u8>)
    requires
        track_writing(m, w).1 is Ok,
    ensures
        m.id < VARINT_END,
        m.track_alias < VARINT_END,
        tuple_encodable(m.track_namespace),
        blob_encodable(encode_utf8(m.track_name)),
        track_writing(m, w).0 == w + m.track_wire(),
{
    let (a, b, c, d) = (
        varint(m.id),
        varint(m.track_alias),
        tuple_wire(m.track_namespace),
        text_wire(m.track_name),
    );
    lemma_join(w, a, b);
    lemma_join(w, a + b, c);
    lemma_join(w, a + b + c, d);
    lemma_tuple_accepted(m.track_namespace, w + a + b);
    lemma_blob_accepted(encode_utf8(m.track_name), w + a + b + c);
}

proof fn lemma_order_accepted(m: SubscribeView, w: Seq<u8>)
    requires
        order_writing(m, w).1 is Ok,
    ensures
        order_writing(m, w).0 == w + m.order_wire(),
{
    let (a, b, c) = (
        seq![m.subscriber_priority],
        seq![m.group_order.code()],
        varint(m.filter_type.code()),
    );
    lemma_join(w, a, b);
    lemma_join(w, a + b, c);
}

proof fn lemma_range_accepted(m: SubscribeView, w: Seq<u8>)
    requires
        m.exact(),
        range_writing(m, w).1 is Ok,
    ensures
        m.start matches Some(p) ==> pair_encodable(p),
        m.end_group matches Some(g) ==> g < VARINT_END,
        range_writing(m, w).0 == w + m.range_wire(),
{
    match m.filter_type {
        FilterType::AbsoluteStart => {
            lemma_pair_accepted(m.start->Some_0, w);
        },
        FilterType::AbsoluteRange => {
            lemma_pair_accepted(m.start->Some_0, w);
            lemma_join(w, pair_wire(m.start->Some_0), varint(m.end_group->Some_0));
        },
        FilterType::LatestObject => {
            assert(w + m.range_wire() =~= w);
        },
    }
}

/// Whatever message is written without an error reads back, from behind what was in the buffer: the
/// message that is read is the one that was written, and the reading stops right behind it. The
/// message names no locations that its filter type does not ask for, which are not written, and no
/// parameter twice, which is not read.
pub proof fn accepted_subscribe_reads_back(m: SubscribeView, w: Seq<u8>, rest: Seq<u8>)
    requires
        subscribe_writing(m, w).1 is Ok,
        m.exact(),
        distinct_params(m.params),
    ensures
        m.encodable(),
        subscribe_writing(m, w).0 == w + m.wire(),
        subscribe_writing(m, w).0.skip(w.len() as int) == m.wire(),
        subscribe_reading(subscribe_writing(m, w).0.skip(w.len() as int) + rest) == (
            Ok::<SubscribeView, DecodeError>(m),
            rest,
        ),
{
    let (a, b, c, d) = (
        m.track_wire(),
        m.order_wire(),
        m.range_wire(),
        params_wire(m.params),
    );
    lemma_join(w, a, b);
    lemma_join(w, a + b, c);
    lemma_join(w, a + b + c, d);
    lemma_track_accepted(m, w);
    lemma_order_accepted(m, w + a);
    lemma_range_accepted(m, w + a + b);
    lemma_params_accepted(m.params, w + a + b + c);
    assert((w + m.wire()).skip(w.len() as int) =~= m.wire());
    subscribe_reads_back(m, rest);
}

/// Every message that is read names the locations that its filter type asks for, and no others.
pub proof fn read_subscribe_is_exact(s: Seq<u8>)
    ensures
        subscribe_reading(s).0 matches Ok(m) ==> m.exact(),
{
}

/// The parameters of a subscription that this library knows.
#[derive(Clone, Copy, Debug, PartialEq, Eq, Structural)]
pub enum SubscribeParam {
    NonPreemptiveGroup,
}

/// The number of the parameter `NonPreemptiveGroup`.
pub const NON_PREEMPTIVE_GROUP: u64 = 0xB11E01;

impl From<SubscribeParam> for u64 {
    fn from(param: SubscribeParam) -> (res: u64) {
        match param {
            SubscribeParam::NonPreemptiveGroup => NON_PREEMPTIVE_GROUP,
        }
    }
}

impl vstd::std_specs::convert::FromSpecImpl<SubscribeParam> for u64 {
    open spec fn obeys_from_spec() -> bool {
        true
    }

    open spec fn from_spec(param: SubscribeParam) -> u64 {
        match param {
            SubscribeParam::NonPreemptiveGroup => NON_PREEMPTIVE_GROUP,
        }
    }
}

/// The value of a parameter that is either on or off.
#[derive(Clone, Copy, Debug, PartialEq, Eq, Structural)]
pub struct FlagParam(bool);

impl View for FlagParam {
    type V = bool;

    closed spec fn view(&self) -> bool {
        self.0
    }
}

impl From<FlagParam> for bool {
    fn from(flag: FlagParam) -> (res: bool) {
        flag.0
    }
}

impl vstd::std_specs::convert::FromSpecImpl<FlagParam> for bool {
    open spec fn obeys_from_spec() -> bool {
        true
    }

    open spec fn from_spec(flag: FlagParam) -> bool {
        flag@
    }
}

impl From<bool> for FlagParam {
    fn from(value: bool) -> (res: FlagParam)
        ensures
            res@ == value,
    {
        FlagParam(value)
    }
}

impl vstd::std_specs::convert::FromSpecImpl<bool> for FlagParam {
    open spec fn obeys_from_spec() -> bool {
        true
    }

    closed spec fn from_spec(value: bool) -> FlagParam {
        FlagParam(value)
    }
}

/// The byte that stands for a flag.
pub open spec fn flag_code(flag: bool) -> u8 {
    if flag {
        1
    } else {
        0
    }
}

/// The outcome of reading a flag.
pub open spec fn flag_reading(s: Seq<u8>) -> Reading<bool> {
    then_read(
        byte_reading(s),
        |b: u8, s: Seq<u8>|
            (
                if b == 0 {
                    Ok(false)
                } else if b == 1 {
                    Ok(true)
                } else {
                    Err(DecodeError::InvalidValue)
                },
                s,
            ),
    )
}

impl Encode for FlagParam {
    open spec fn writing(v: bool, w: Seq<u8>) -> Writing {
        appending(w, seq![flag_code(v)])
    }

    fn encode(&self, w: &mut Vec<u8>) -> (res: Result<(), EncodeError>) {
        let value: u8 = if self.0 {
            1
        } else {
            0
        };
        value.encode(w)
    }
}

impl Decode for FlagParam {
    open spec fn reading(s: Seq<u8>) -> Reading<bool> {
        flag_reading(s)
    }

    fn decode(r: &mut Bytes) -> (res: Result<FlagParam, DecodeError>) {
        match u8::decode(r) {
            Ok(value) => if value == 0 {
                Ok(FlagParam(false))
            } else if value == 1 {
                Ok(FlagParam(true))
            } else {
                Err(DecodeError::InvalidValue)
            },
            Err(e) => Err(e),
        }
    }
}

/// A flag is written as one byte, and reads back.
pub proof fn flag_reads_back(flag: bool, rest: Seq<u8>)
    ensures
        flag_reading(seq![flag_code(flag)] + rest) == (Ok::<bool, DecodeError>(flag), rest),
{
    assert((seq![flag_code(flag)] + rest).skip(1) =~= rest);
}

} // verus!
