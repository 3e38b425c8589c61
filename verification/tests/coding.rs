//! How messages are laid out in bytes.
use bytes::{Buf, Bytes};
use moq_subscribe::coding::{Decode, DecodeError, Encode, EncodeError, Params, Tuple};
use moq_subscribe::message::{
    FilterType, FlagParam, GroupOrder, Subscribe, SubscribePair, SubscribeParam, SubscribeUpdate,
};

fn encoded<T: Encode>(value: &T) -> Vec<u8> {
    let mut w = Vec::new();
    assert!(value.encode(&mut w).is_ok());
    w
}

fn decoded<T: Decode>(bytes: &[u8]) -> Result<T, DecodeError> {
    T::decode(&mut Bytes::copy_from_slice(bytes))
}

fn params(entries: &[(u64, &[u8])]) -> Params {
    Params {
        entries: entries.iter().map(|(kind, value)| (*kind, value.to_vec())).collect(),
    }
}

fn subscribe(filter_type: FilterType, start: Option<(u64, u64)>, end_group: Option<u64>) -> Subscribe {
    Subscribe {
        id: 5,
        track_alias: 6,
        track_namespace: Tuple { fields: vec![b"meet".to_vec(), b"a".to_vec()] },
        track_name: "1.m4s".to_string(),
        subscriber_priority: 127,
        group_order: GroupOrder::Descending,
        filter_type,
        start: start.map(|(group, object)| SubscribePair { group, object }),
        end_group,
        params: params(&[(1, b"xy")]),
    }
}

#[test]
fn varint_takes_the_shortest_form() {
    assert_eq!(encoded(&0u64), vec![0]);
    assert_eq!(encoded(&63u64), vec![0x3f]);
    assert_eq!(encoded(&64u64), vec![0x40, 0x40]);
    assert_eq!(encoded(&15293u64), vec![0x7b, 0xbd]);
    assert_eq!(encoded(&494878333u64), vec![0x9d, 0x7f, 0x3e, 0x7d]);
    assert_eq!(
        encoded(&151288809941952652u64),
        vec![0xc2, 0x19, 0x7c, 0x5e, 0xff, 0x14, 0xe8, 0x8c]
    );
}

#[test]
fn varint_reads_back() {
    for v in [0u64, 63, 64, 16383, 16384, 0x3fff_ffff, 0x4000_0000, 0x3fff_ffff_ffff_ffff] {
        let mut buffer = Bytes::from([encoded(&v), vec![9]].concat());
        assert_eq!(u64::decode(&mut buffer).ok(), Some(v));
        assert_eq!(buffer.remaining(), 1);
    }
}

#[test]
fn varint_longer_than_needed_is_read() {
    assert_eq!(decoded::<u64>(&[0x40, 0x25]).ok(), Some(37));
}

#[test]
fn varint_out_of_bounds_is_refused() {
    let mut w = vec![7];
    assert!(matches!((1u64 << 62).encode(&mut w), Err(EncodeError::BoundsExceeded)));
    assert_eq!(w, vec![7]);
}

#[test]
fn varint_cut_off_asks_for_more() {
    assert!(matches!(decoded::<u64>(&[]), Err(DecodeError::More(1))));
    assert!(matches!(decoded::<u64>(&[0x80, 1]), Err(DecodeError::More(2))));
    assert!(matches!(decoded::<u8>(&[]), Err(DecodeError::More(1))));
}

#[test]
fn string_reads_back() {
    let text = "caf\u{e9}".to_string();
    assert_eq!(encoded(&text), vec![5, b'c', b'a', b'f', 0xc3, 0xa9]);
    assert_eq!(decoded::<String>(&encoded(&text)).ok(), Some(text));
}

#[test]
fn string_that_is_not_utf8_is_refused() {
    assert!(matches!(decoded::<String>(&[1, 0xff]), Err(DecodeError::InvalidString)));
    assert!(matches!(decoded::<String>(&[3, b'a']), Err(DecodeError::More(2))));
}

#[test]
fn tuple_paths() {
    let tuple = Tuple::from_utf8_path("meet/room/1");
    assert_eq!(tuple.fields, vec![b"meet".to_vec(), b"room".to_vec(), b"1".to_vec()]);
    assert_eq!(tuple.to_utf8_path(), "/meet/room/1");
    assert_eq!(Tuple { fields: vec![vec![0xff]] }.to_utf8_path(), "/\u{fffd}");
    assert_eq!(Tuple::from_utf8_path("").fields, vec![Vec::<u8>::new()]);
}

#[test]
fn params_that_repeat_are_refused() {
    assert!(matches!(
        decoded::<Params>(&[2, 1, 0, 1, 0]),
        Err(DecodeError::DuplicateParameter)
    ));
    assert!(decoded::<Params>(&[2, 1, 0, 2, 0]).is_ok());
    assert!(decoded::<Params>(&[0]).map(|p| p.is_empty()).unwrap_or(false));
}

#[test]
fn subscribe_layout() {
    let message = subscribe(FilterType::AbsoluteRange, Some((8, 9)), Some(10));
    assert_eq!(
        encoded(&message),
        [
            &[5, 6, 2, 4][..],
            b"meet",
            &[1],
            b"a",
            &[5],
            b"1.m4s",
            &[127, 2, 4, 8, 9, 10, 1, 1, 2],
            b"xy"
        ]
        .concat()
    );
}

#[test]
fn subscribe_reads_back() {
    for message in [
        subscribe(FilterType::LatestObject, None, None),
        subscribe(FilterType::AbsoluteStart, Some((8, 9)), None),
        subscribe(FilterType::AbsoluteRange, Some((8, 9)), Some(70)),
    ] {
        let mut buffer = Bytes::from([encoded(&message), vec![1, 2, 3]].concat());
        let read = match Subscribe::decode(&mut buffer) {
            Ok(read) => read,
            Err(err) => panic!("{:?}", err),
        };
        assert_eq!(buffer.remaining(), 3);
        assert_eq!(read.id, message.id);
        assert_eq!(read.track_alias, message.track_alias);
        assert_eq!(read.track_namespace.fields, message.track_namespace.fields);
        assert_eq!(read.track_name, message.track_name);
        assert_eq!(read.subscriber_priority, message.subscriber_priority);
        assert_eq!(read.group_order, message.group_order);
        assert_eq!(read.filter_type, message.filter_type);
        assert_eq!(read.start, message.start);
        assert_eq!(read.end_group, message.end_group);
        assert_eq!(read.params.entries, message.params.entries);
    }
}

#[test]
fn subscribe_reads_back_from_behind_other_bytes() {
    let message = subscribe(FilterType::AbsoluteStart, Some((300, 9)), None);
    let mut w = vec![7, 7, 7];
    assert!(message.encode(&mut w).is_ok());
    assert_eq!(w[3..], encoded(&message));
    let read = decoded::<Subscribe>(&w[3..]);
    assert!(matches!(read, Ok(read) if read.start == message.start && read.id == message.id));
}

#[test]
fn subscribe_without_its_range_is_refused() {
    let mut w = Vec::new();
    let message = subscribe(FilterType::AbsoluteStart, None, None);
    assert!(matches!(message.encode(&mut w), Err(EncodeError::MissingField)));
    let message = subscribe(FilterType::AbsoluteRange, Some((1, 1)), None);
    assert!(matches!(message.encode(&mut w), Err(EncodeError::MissingField)));

    assert!(matches!(
        decoded::<Subscribe>(&[0, 0, 0, 0, 0, 0, 3, 1]),
        Err(DecodeError::MissingField)
    ));
    assert!(matches!(
        decoded::<Subscribe>(&[0, 0, 0, 0, 0, 0, 4, 1, 1, 1]),
        Err(DecodeError::MissingField)
    ));
}

#[test]
fn subscribe_with_unknown_codes_is_refused() {
    assert!(matches!(
        decoded::<Subscribe>(&[0, 0, 0, 0, 0, 3]),
        Err(DecodeError::InvalidGroupOrder)
    ));
    assert!(matches!(
        decoded::<Subscribe>(&[0, 0, 0, 0, 0, 0, 1]),
        Err(DecodeError::InvalidFilterType)
    ));
}

#[test]
fn subscribe_update_reads_back() {
    let message = SubscribeUpdate {
        id: 300,
        start: SubscribePair { group: 1, object: 2 },
        end_group: 3,
        subscriber_priority: 200,
        params: params(&[]),
    };
    let bytes = encoded(&message);
    assert_eq!(bytes, vec![0x41, 0x2c, 1, 2, 3, 200, 0]);
    let read = match decoded::<SubscribeUpdate>(&bytes) {
        Ok(read) => read,
        Err(err) => panic!("{:?}", err),
    };
    assert_eq!(read.id, 300);
    assert_eq!(read.start, SubscribePair { group: 1, object: 2 });
    assert_eq!(read.end_group, 3);
    assert_eq!(read.subscriber_priority, 200);
    assert!(read.params.is_empty());
}

#[test]
fn pairs_are_ordered_by_group_first() {
    let pair = |group, object| SubscribePair { group, object };
    assert!(pair(1, 9) < pair(2, 0));
    assert!(pair(1, 1) < pair(1, 2));
    assert!(pair(1, 1) <= pair(1, 1));
    assert!(!(pair(2, 0) <= pair(1, 9)));
}

#[test]
fn flags() {
    assert_eq!(u64::from(SubscribeParam::NonPreemptiveGroup), 0xB11E01);
    assert_eq!(encoded(&FlagParam::from(true)), vec![1]);
    assert_eq!(encoded(&FlagParam::from(false)), vec![0]);
    assert_eq!(decoded::<FlagParam>(&[1]).map(bool::from).ok(), Some(true));
    assert_eq!(decoded::<FlagParam>(&[0]).map(bool::from).ok(), Some(false));
    assert!(matches!(decoded::<FlagParam>(&[2]), Err(DecodeError::InvalidValue)));
}
