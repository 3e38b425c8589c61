//! What holds of messages as bytes, in terms of their codes and fields.
use super::subscribe::filter_type_reading;
use super::subscribe::flag_code;
use super::subscribe::flag_reading;
use super::subscribe::group_order_reading;
use super::subscribe::pair_reading;
use super::subscribe::range_reading;
use super::subscribe::subscribe_reading;
use super::subscribe::subscribe_writing;
use super::subscribe::FilterType;
use super::subscribe::GroupOrder;
use super::subscribe::SubscribePair;
use super::subscribe::SubscribeView;
use super::subscribe_update::update_reading;
use super::subscribe_update::SubscribeUpdateView;
use crate::coding::blob::text_reading;
use crate::coding::blob::text_wire;
use crate::coding::error::DecodeError;
use crate::coding::params::params_reading;
use crate::coding::params::params_wire;
use crate::coding::params::ParamView;
use crate::coding::tuple::tuple_reading;
use crate::coding::tuple::tuple_wire;
use crate::coding::varint::byte_reading;
use crate::coding::varint::lemma_varint_roundtrip;
use crate::coding::varint::varint;
use crate::coding::varint::varint_reading;
use vstd::prelude::*;

verus! {

/// The byte of a group order is 0, 1 or 2, in the order publisher, ascending, descending. Each other byte
/// is refused, and what is left stands behind the byte.
pub proof fn group_orders_are_bytes(b: u8, rest: Seq<u8>)
    ensures
        GroupOrder::Publisher.code() == 0,
        GroupOrder::Ascending.code() == 1,
        GroupOrder::Descending.code() == 2,
        b <= 2 ==> {
            &&& group_order_reading(seq![b] + rest).0 matches Ok(order)
            &&& order.code() == b
        },
        b > 2 ==> group_order_reading(seq![b] + rest).0 == Err::<GroupOrder, DecodeError>(
            DecodeError::InvalidGroupOrder,
        ),
        group_order_reading(seq![b] + rest).1 == rest,
{
    assert((seq![b] + rest).skip(1) =~= rest);
}

/// The number of a filter type is 2, 3 or 4, in the order latest object, absolute start, absolute range.
/// Each other number is refused, and what is left stands behind the number.
pub proof fn filter_types_are_numbers(n: u64, rest: Seq<u8>)
    requires
        n < 0x4000_0000_0000_0000,
    ensures
        FilterType::LatestObject.code() == 2,
        FilterType::AbsoluteStart.code() == 3,
        FilterType::AbsoluteRange.code() == 4,
        2 <= n <= 4 ==> {
            &&& filter_type_reading(varint(n) + rest).0 matches Ok(filter_type)
            &&& filter_type.code() == n
        },
        n < 2 || n > 4 ==> filter_type_reading(varint(n) + rest).0 == Err::<
            FilterType,
            DecodeError,
        >(DecodeError::InvalidFilterType),
        filter_type_reading(varint(n) + rest).1 == rest,
{
    lemma_varint_roundtrip(n, rest);
}

/// The byte of a flag is 1 where it is on, and 0 where it is off. Each other byte is refused.
pub proof fn flags_are_bytes(b: u8, rest: Seq<u8>)
    ensures
        flag_code(true) == 1,
        flag_code(false) == 0,
        b <= 1 ==> flag_reading(seq![b] + rest) == (Ok::<bool, DecodeError>(b == 1), rest),
        b > 1 ==> flag_reading(seq![b] + rest).0 == Err::<bool, DecodeError>(
            DecodeError::InvalidValue,
        ),
{
    assert((seq![b] + rest).skip(1) =~= rest);
}

/// Locations are read only for a filter type that asks for them: a start where there are two bytes left,
/// a start and an end where there are four. With fewer bytes they are missing. The start is read as a
/// group and an object.
pub proof fn locations_are_read_as_the_filter_type_asks(s: Seq<u8>, start: SubscribePair, end: u64)
    ensures
        range_reading(FilterType::LatestObject, s) == (
            Ok::<(Option<SubscribePair>, Option<u64>), DecodeError>((None, None)),
            s,
        ),
        range_reading(FilterType::AbsoluteStart, s).0 == Err::<
            (Option<SubscribePair>, Option<u64>),
            DecodeError,
        >(DecodeError::MissingField) <== s.len() < 2,
        range_reading(FilterType::AbsoluteRange, s).0 == Err::<
            (Option<SubscribePair>, Option<u64>),
            DecodeError,
        >(DecodeError::MissingField) <== s.len() < 4,
        s.len() >= 2 && pair_reading(s).0 == Ok::<SubscribePair, DecodeError>(start)
            ==> range_reading(FilterType::AbsoluteStart, s) == (
            Ok::<(Option<SubscribePair>, Option<u64>), DecodeError>((Some(start), None)),
            pair_reading(s).1,
        ),
        s.len() >= 4 && pair_reading(s).0 == Ok::<SubscribePair, DecodeError>(start)
            && varint_reading(pair_reading(s).1).0 == Ok::<u64, DecodeError>(end) ==> range_reading(
            FilterType::AbsoluteRange,
            s,
        ) == (
            Ok::<(Option<SubscribePair>, Option<u64>), DecodeError>((Some(start), Some(end))),
            varint_reading(pair_reading(s).1).1,
        ),
        pair_reading(s).0 == Ok::<SubscribePair, DecodeError>(start) ==> {
            &&& varint_reading(s).0 == Ok::<u64, DecodeError>(start.group)
            &&& varint_reading(varint_reading(s).1).0 == Ok::<u64, DecodeError>(start.object)
            &&& varint_reading(varint_reading(s).1).1 == pair_reading(s).1
        },
{
}

/// What is read as a message stands in the bytes one field behind the other: the identity, the alias, the
/// namespace, the name, the priority, the order, the filter type, the locations and the parameters, each
/// as it is read there.
pub proof fn subscribe_is_read_field_by_field(s: Seq<u8>)
    ensures
        subscribe_reading(s).0 matches Ok(m) ==> {
            let s1 = varint_reading(s).1;
            let s2 = varint_reading(s1).1;
            let s3 = tuple_reading(s2).1;
            let s4 = text_reading(s3).1;
            let s5 = byte_reading(s4).1;
            let s6 = group_order_reading(s5).1;
            let s7 = filter_type_reading(s6).1;
            let s8 = range_reading(m.filter_type, s7).1;
            &&& varint_reading(s).0 == Ok::<u64, DecodeError>(m.id)
            &&& varint_reading(s1).0 == Ok::<u64, DecodeError>(m.track_alias)
            &&& tuple_reading(s2).0 == Ok::<Seq<Seq<u8>>, DecodeError>(m.track_namespace)
            &&& text_reading(s3).0 == Ok::<Seq<char>, DecodeError>(m.track_name)
            &&& byte_reading(s4).0 == Ok::<u8, DecodeError>(m.subscriber_priority)
            &&& group_order_reading(s5).0 == Ok::<GroupOrder, DecodeError>(m.group_order)
            &&& filter_type_reading(s6).0 == Ok::<FilterType, DecodeError>(m.filter_type)
            &&& range_reading(m.filter_type, s7).0 == Ok::<
                (Option<SubscribePair>, Option<u64>),
                DecodeError,
            >((m.start, m.end_group))
            &&& params_reading(s8).0 == Ok::<_, DecodeError>(m.params)
            &&& params_reading(s8).1 == subscribe_reading(s).1
        },
{
}

/// What is read as an update stands in the bytes one field behind the other: the identity, the start, the
/// end group, the priority and the parameters, each as it is read there.
pub proof fn update_is_read_field_by_field(s: Seq<u8>)
    ensures
        update_reading(s).0 matches Ok(m) ==> {
            let s1 = varint_reading(s).1;
            let s2 = pair_reading(s1).1;
            let s3 = varint_reading(s2).1;
            let s4 = byte_reading(s3).1;
            &&& varint_reading(s).0 == Ok::<u64, DecodeError>(m.id)
            &&& pair_reading(s1).0 == Ok::<SubscribePair, DecodeError>(m.start)
            &&& varint_reading(s2).0 == Ok::<u64, DecodeError>(m.end_group)
            &&& byte_reading(s3).0 == Ok::<u8, DecodeError>(m.subscriber_priority)
            &&& params_reading(s4).0 == Ok::<_, DecodeError>(m.params)
            &&& params_reading(s4).1 == update_reading(s).1
        },
{
}

/// A message is read wherever each of its fields is.
pub proof fn subscribe_is_read_where_its_fields_are(s: Seq<u8>, filter_type: FilterType)
    ensures
        ({
            let s1 = varint_reading(s).1;
            let s2 = varint_reading(s1).1;
            let s3 = tuple_reading(s2).1;
            let s4 = text_reading(s3).1;
            let s5 = byte_reading(s4).1;
            let s6 = group_order_reading(s5).1;
            let s7 = filter_type_reading(s6).1;
            let s8 = range_reading(filter_type, s7).1;
            &&& varint_reading(s).0 is Ok
            &&& varint_reading(s1).0 is Ok
            &&& tuple_reading(s2).0 is Ok
            &&& text_reading(s3).0 is Ok
            &&& byte_reading(s4).0 is Ok
            &&& group_order_reading(s5).0 is Ok
            &&& filter_type_reading(s6).0 == Ok::<FilterType, DecodeError>(filter_type)
            &&& range_reading(filter_type, s7).0 is Ok
            &&& params_reading(s8).0 is Ok
        }) ==> subscribe_reading(s).0 is Ok,
{
}

/// The first field of a message that cannot be read gives the error.
pub proof fn first_unread_field_gives_the_error(s: Seq<u8>, filter_type: FilterType, e: DecodeError)
    ensures
        ({
            let s1 = varint_reading(s).1;
            let s2 = varint_reading(s1).1;
            let s3 = tuple_reading(s2).1;
            let s4 = text_reading(s3).1;
            let s5 = byte_reading(s4).1;
            let s6 = group_order_reading(s5).1;
            let s7 = filter_type_reading(s6).1;
            let s8 = range_reading(filter_type, s7).1;
            let id = varint_reading(s).0;
            let alias = varint_reading(s1).0;
            let namespace = tuple_reading(s2).0;
            let name = text_reading(s3).0;
            let priority = byte_reading(s4).0;
            let order = group_order_reading(s5).0;
            let kind = filter_type_reading(s6).0;
            let range = range_reading(filter_type, s7).0;
            let params = params_reading(s8).0;
            let refused = subscribe_reading(s).0 == Err::<SubscribeView, DecodeError>(e);
            let first = id is Ok && alias is Ok;
            let track = first && namespace is Ok && name is Ok;
            let asked = track && priority is Ok && order is Ok;
            let located = asked && kind == Ok::<FilterType, DecodeError>(filter_type);
            &&& id == Err::<u64, DecodeError>(e) ==> refused
            &&& id is Ok && alias == Err::<u64, DecodeError>(e) ==> refused
            &&& first && namespace == Err::<Seq<Seq<u8>>, DecodeError>(e) ==> refused
            &&& first && namespace is Ok && name == Err::<Seq<char>, DecodeError>(e) ==> refused
            &&& track && priority == Err::<u8, DecodeError>(e) ==> refused
            &&& track && priority is Ok && order == Err::<GroupOrder, DecodeError>(e) ==> refused
            &&& asked && kind == Err::<FilterType, DecodeError>(e) ==> refused
            &&& located && range == Err::<(Option<SubscribePair>, Option<u64>), DecodeError>(e)
                ==> refused
            &&& located && range is Ok && params == Err::<Seq<ParamView>, DecodeError>(e)
                ==> refused
        }),
{
}

/// An update is read wherever each of its fields is.
pub proof fn update_is_read_where_its_fields_are(s: Seq<u8>)
    ensures
        ({
            let s1 = varint_reading(s).1;
            let s2 = pair_reading(s1).1;
            let s3 = varint_reading(s2).1;
            let s4 = byte_reading(s3).1;
            &&& varint_reading(s).0 is Ok
            &&& pair_reading(s1).0 is Ok
            &&& varint_reading(s2).0 is Ok
            &&& byte_reading(s3).0 is Ok
            &&& params_reading(s4).0 is Ok
        }) ==> update_reading(s).0 is Ok,
{
}

/// The first field of an update that cannot be read gives the error.
pub proof fn first_unread_field_of_an_update_gives_the_error(s: Seq<u8>, e: DecodeError)
    ensures
        ({
            let s1 = varint_reading(s).1;
            let s2 = pair_reading(s1).1;
            let s3 = varint_reading(s2).1;
            let s4 = byte_reading(s3).1;
            let id = varint_reading(s).0;
            let start = pair_reading(s1).0;
            let end = varint_reading(s2).0;
            let priority = byte_reading(s3).0;
            let params = params_reading(s4).0;
            let refused = update_reading(s).0 == Err::<SubscribeUpdateView, DecodeError>(e);
            let located = id is Ok && start is Ok && end is Ok;
            &&& id == Err::<u64, DecodeError>(e) ==> refused
            &&& id is Ok && start == Err::<SubscribePair, DecodeError>(e) ==> refused
            &&& id is Ok && start is Ok && end == Err::<u64, DecodeError>(e) ==> refused
            &&& located && priority == Err::<u8, DecodeError>(e) ==> refused
            &&& located && priority is Ok && params == Err::<Seq<ParamView>, DecodeError>(e)
                ==> refused
        }),
{
}

/// The bytes of a message are those of its fields one behind the other, with the locations that its filter
/// type asks for.
pub proof fn subscribe_is_laid_out_field_by_field(m: SubscribeView, start: SubscribePair, end: u64)
    ensures
        ({
            let front = varint(m.id) + varint(m.track_alias) + tuple_wire(m.track_namespace)
                + text_wire(m.track_name);
            let order = seq![m.subscriber_priority] + seq![m.group_order.code()];
            let back = params_wire(m.params);
            &&& m.filter_type == FilterType::LatestObject ==> m.wire() == front + (order + varint(
                2,
            )) + Seq::<u8>::empty() + back
            &&& m.filter_type == FilterType::AbsoluteStart && m.start == Some(start) ==> m.wire()
                == front + (order + varint(3)) + (varint(start.group) + varint(start.object)) + back
            &&& m.filter_type == FilterType::AbsoluteRange && m.start == Some(start) && m.end_group
                == Some(end) ==> m.wire() == front + (order + varint(4)) + (varint(start.group)
                + varint(start.object) + varint(end)) + back
        }),
{
}

/// The bytes of an update are those of its fields one behind the other.
pub proof fn update_is_laid_out_field_by_field(m: SubscribeUpdateView)
    ensures
        m.wire() == varint(m.id) + (varint(m.start.group) + varint(m.start.object)) + varint(
            m.end_group,
        ) + seq![m.subscriber_priority] + params_wire(m.params),
{
}

/// A message without a location that its filter type asks for is not written without an error.
pub proof fn incomplete_subscribe_is_refused(m: SubscribeView, w: Seq<u8>)
    requires
        m.filter_type != FilterType::LatestObject,
        m.start is None || (m.filter_type == FilterType::AbsoluteRange && m.end_group is None),
    ensures
        subscribe_writing(m, w).1 is Err,
{
}

/// Locations come in the order of their groups, and within a group in that of their objects.
pub proof fn locations_are_ordered_by_group_and_object(a: SubscribePair, b: SubscribePair)
    ensures
        a.before(b) <==> a.group < b.group || (a.group == b.group && a.object < b.object),
        a.up_to(b) <==> a.group < b.group || (a.group == b.group && a.object <= b.object),
{
}

} // verus!
