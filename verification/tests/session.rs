//! The two ends of a subscription.
use bytes::Bytes;
use moq_subscribe::coding::{Params, Tuple};
use moq_subscribe::data;
use moq_subscribe::message::{FilterType, GroupOrder, Message, Subscribe as SubscribeMessage};
use moq_subscribe::message::{SubscribePair, SubscribeUpdate};
use moq_subscribe::serve::{ServeError, Subgroup, Track, TrackWriterMode};
use moq_subscribe::serve::Datagram;
use moq_subscribe::session::serving::{Action, Event, SubgroupServing, TrackServing};
use moq_subscribe::session::subscribed::{
    object_sent, serve_object, serves_group, ObjectAction, SubgroupsServing,
};
use moq_subscribe::session::{
    Publisher, SessionError, Subscribe, SubscribeFilter, SubscribeRecv, Subscribed, SubscribedRecv,
    Subscriber,
};

fn pair(group: u64, object: u64) -> SubscribePair {
    SubscribePair { group, object }
}

fn track() -> Track {
    Track { namespace: Tuple::from_utf8_path("live"), name: "1.m4s".to_string() }
}

fn params() -> Params {
    Params::default()
}

fn subscribe(filter: SubscribeFilter) -> (Subscriber, Subscribe, SubscribeRecv) {
    let mut subscriber = Subscriber::new();
    let (send, recv) = Subscribe::new(&mut subscriber, 3, track(), filter, 127, params());
    (subscriber, send, recv)
}

fn subscribed(filter: SubscribeFilter) -> (Subscribed, SubscribedRecv) {
    let (mut subscriber, _send, _recv) = subscribe(filter);
    match subscriber.outgoing.remove(0) {
        Message::Subscribe(message) => Subscribed::new(message),
        other => panic!("{:?}", other),
    }
}

fn update(start: SubscribePair, end_group: u64, subscriber_priority: u8) -> SubscribeUpdate {
    SubscribeUpdate { id: 3, start, end_group, subscriber_priority, params: params() }
}

#[test]
fn subscribe_sends_the_message() {
    let (subscriber, send, recv) = subscribe(SubscribeFilter::AbsoluteRange(pair(1, 2), 9));
    assert_eq!(subscriber.outgoing.len(), 1);
    match &subscriber.outgoing[0] {
        Message::Subscribe(SubscribeMessage {
            id: 3,
            track_alias: 3,
            track_namespace,
            track_name,
            subscriber_priority: 127,
            group_order: GroupOrder::Publisher,
            filter_type: FilterType::AbsoluteRange,
            start: Some(start),
            end_group: Some(9),
            params,
        }) => {
            assert_eq!(track_namespace.fields, vec![b"live".to_vec()]);
            assert_eq!(track_name, "1.m4s");
            assert_eq!(*start, pair(1, 2));
            assert!(params.is_empty());
        }
        other => panic!("{:?}", other),
    }
    assert_eq!(send.info.id, 3);
    assert_eq!(send.alias, 3);
    assert_eq!(send.name, "1.m4s");
    assert_eq!(recv.writer, Some(TrackWriterMode::Track));
    assert!(send.closed(&recv.state).is_none());
}

#[test]
fn both_ends_agree_on_a_subscription() {
    let (subscribed, recv) = subscribed(SubscribeFilter::AbsoluteStart(pair(4, 5)));
    assert_eq!(subscribed.info.id, 3);
    assert_eq!(subscribed.info.alias, 3);
    assert_eq!(subscribed.info.name, "1.m4s");
    assert_eq!(subscribed.info.namespace.fields, vec![b"live".to_vec()]);
    assert!(!subscribed.ok);
    assert_eq!(recv.state.value.filter, SubscribeFilter::AbsoluteStart(pair(4, 5)));
    assert_eq!(recv.state.value.priority, 127);
    assert_eq!(recv.state.value.max_group_id, None);
}

#[test]
fn unsubscribe_tells_the_publisher() {
    let (mut subscriber, send, mut recv) = subscribe(SubscribeFilter::LatestObject);
    send.unsubscribe(&mut subscriber, &mut recv.state);
    assert!(matches!(&subscriber.outgoing[1], Message::Unsubscribe(message) if message.id == 3));
    assert!(matches!(recv.error(ServeError::Done, Ok(())), Err(ServeError::Cancel)));
}

#[test]
fn subscription_is_accepted_once() {
    let (_subscriber, send, mut recv) = subscribe(SubscribeFilter::LatestObject);
    assert!(recv.ok().is_ok());
    assert!(matches!(recv.ok(), Err(ServeError::Duplicate)));
    assert!(send.closed(&recv.state).is_none());
}

#[test]
fn error_reaches_the_application() {
    let (_subscriber, send, mut recv) = subscribe(SubscribeFilter::LatestObject);
    assert!(recv.error(ServeError::Closed(7), Ok(())).is_ok());
    assert!(matches!(send.closed(&recv.state), Some(Err(ServeError::Closed(7)))));
    assert_eq!(recv.writer, None);
    assert!(matches!(recv.error(ServeError::Size, Ok(())), Err(ServeError::Closed(7))));
}

#[test]
fn error_of_the_writer_comes_first() {
    let (_subscriber, send, mut recv) = subscribe(SubscribeFilter::LatestObject);
    let res = recv.error(ServeError::Closed(7), Err(ServeError::Size));
    assert!(matches!(res, Err(ServeError::Size)));
    assert!(matches!(send.closed(&recv.state), Some(Ok(()))));
}

#[test]
fn track_is_written_in_one_mode() {
    let header = data::TrackHeader { subscribe_id: 3, track_alias: 3, publisher_priority: 9 };
    let subgroup = data::SubgroupHeader {
        subscribe_id: 3,
        track_alias: 3,
        group_id: 1,
        subgroup_id: 0,
        publisher_priority: 9,
    };
    let (_subscriber, _send, mut recv) = subscribe(SubscribeFilter::LatestObject);
    assert!(matches!(recv.track(header), Ok(9)));
    assert!(recv.track_opened(Ok(())).is_ok());
    assert_eq!(recv.writer, Some(TrackWriterMode::Stream));
    assert!(matches!(recv.subgroup(subgroup), Err(ServeError::Mode)));
    assert!(matches!(recv.track(header), Err(ServeError::Done)));
}

#[test]
fn subgroups_follow_each_other() {
    let header = data::SubgroupHeader {
        subscribe_id: 3,
        track_alias: 3,
        group_id: 1,
        subgroup_id: 2,
        publisher_priority: 9,
    };
    let expected = Subgroup { group_id: 1, subgroup_id: 2, priority: 9 };
    let (_subscriber, _send, mut recv) = subscribe(SubscribeFilter::LatestObject);
    assert_eq!(recv.subgroup(header).ok(), Some((TrackWriterMode::Track, expected)));
    assert!(recv.subgroup_created(Ok(())).is_ok());
    assert_eq!(recv.subgroup(header).ok(), Some((TrackWriterMode::Subgroups, expected)));
    assert!(matches!(recv.subgroup_created(Err(ServeError::Duplicate)), Err(ServeError::Duplicate)));
    assert_eq!(recv.writer, None);
}

#[test]
fn datagram_gives_up_the_writer() {
    let datagram = || data::Datagram {
        subscribe_id: 3,
        track_alias: 3,
        group_id: 1,
        object_id: 2,
        publisher_priority: 9,
        object_status: 0,
        payload_len: 3,
        payload: Bytes::from_static(b"abc"),
    };
    let (_subscriber, _send, mut recv) = subscribe(SubscribeFilter::LatestObject);
    match recv.datagram(datagram()) {
        Ok((TrackWriterMode::Track, written)) => {
            assert_eq!(written.group_id, 1);
            assert_eq!(written.object_id, 2);
            assert_eq!(written.priority, 9);
            assert_eq!(written.status, 0);
            assert_eq!(&written.payload[..], b"abc");
        }
        other => panic!("{:?}", other),
    }
    assert!(matches!(recv.datagram(datagram()), Err(ServeError::Done)));
}

#[test]
fn updates_name_their_filter() {
    let mut subscriber = Subscriber::new();
    let filter = SubscribeFilter::AbsoluteStart(pair(4, 5));
    let message = SubscribeUpdate::new(&mut subscriber, 8, filter, 60, params());
    assert_eq!((message.id, message.start, message.end_group), (8, pair(4, 5), 0));
    assert_eq!(message.subscriber_priority, 60);
    assert!(matches!(&subscriber.outgoing[..], [Message::SubscribeUpdate(sent)] if sent.id == 8));
    assert_eq!(SubscribeFilter::from(&message), filter);

    let message =
        SubscribeUpdate::new(&mut subscriber, 8, SubscribeFilter::LatestObject, 60, params());
    assert_eq!((message.start, message.end_group), (pair(0, 0), 0));
    assert_eq!(SubscribeFilter::from(&message), SubscribeFilter::LatestObject);

    let range = SubscribeFilter::AbsoluteRange(pair(1, 0), 6);
    let message = SubscribeUpdate::new(&mut subscriber, 8, range, 60, params());
    assert_eq!((message.start, message.end_group), (pair(1, 0), 6));
    assert_eq!(
        SubscribeFilter::from(&message),
        SubscribeFilter::AbsoluteRange(pair(1, 0), 5)
    );
    assert_eq!(subscriber.outgoing.len(), 3);
}

#[test]
fn start_only_moves_ahead() {
    let (_subscribed, mut recv) = subscribed(SubscribeFilter::AbsoluteStart(pair(4, 5)));
    assert!(recv.recv_subscribe_update(update(pair(4, 6), 0, 1)).is_ok());
    assert_eq!(recv.state.value.filter, SubscribeFilter::AbsoluteStart(pair(4, 6)));
    match recv.recv_subscribe_update(update(pair(4, 5), 0, 2)) {
        Err(ServeError::Internal(reason)) => assert_eq!(reason, "narrowing subscribe update"),
        other => panic!("{:?}", other),
    }
    assert_eq!(recv.state.value.filter, SubscribeFilter::AbsoluteStart(pair(4, 6)));
    assert_eq!(recv.state.value.priority, 2);
}

#[test]
fn range_only_shrinks() {
    let (_subscribed, mut recv) = subscribed(SubscribeFilter::AbsoluteStart(pair(4, 5)));
    assert!(recv.recv_subscribe_update(update(pair(5, 0), 10, 1)).is_ok());
    assert_eq!(recv.state.value.filter, SubscribeFilter::AbsoluteRange(pair(5, 0), 9));
    assert!(recv.recv_subscribe_update(update(pair(5, 0), 11, 1)).is_err());
    assert!(recv.recv_subscribe_update(update(pair(5, 0), 0, 1)).is_err());
    assert!(recv.recv_subscribe_update(update(pair(0, 0), 0, 1)).is_err());
    assert!(recv.recv_subscribe_update(update(pair(9, 0), 9, 1)).is_err());
    assert!(recv.recv_subscribe_update(update(pair(6, 1), 9, 1)).is_ok());
    assert_eq!(recv.state.value.filter, SubscribeFilter::AbsoluteRange(pair(6, 1), 8));
}

#[test]
fn same_filter_is_accepted() {
    let (_subscribed, mut recv) = subscribed(SubscribeFilter::AbsoluteStart(pair(4, 5)));
    assert!(recv.recv_subscribe_update(update(pair(4, 5), 0, 1)).is_ok());
    assert!(recv.recv_subscribe_update(update(pair(4, 5), 9, 1)).is_ok());
    assert!(recv.recv_subscribe_update(update(pair(4, 5), 9, 1)).is_ok());
    assert_eq!(recv.state.value.filter, SubscribeFilter::AbsoluteRange(pair(4, 5), 8));
}

#[test]
fn latest_object_goes_on_from_the_highest_group() {
    let (mut subscribed, mut recv) = subscribed(SubscribeFilter::LatestObject);
    let mut publisher = Publisher::new();
    assert!(subscribed.accept(&mut publisher, &mut recv.state, Some((7, 3))).is_ok());
    assert!(recv.recv_subscribe_update(update(pair(6, 9), 0, 1)).is_err());
    assert!(recv.recv_subscribe_update(update(pair(0, 0), 0, 1)).is_ok());
    assert_eq!(recv.state.value.filter, SubscribeFilter::LatestObject);
    assert!(recv.recv_subscribe_update(update(pair(7, 0), 0, 1)).is_ok());
    assert_eq!(recv.state.value.filter, SubscribeFilter::AbsoluteStart(pair(7, 0)));
    assert!(recv.recv_subscribe_update(update(pair(0, 0), 0, 1)).is_ok());
    assert_eq!(recv.state.value.filter, SubscribeFilter::LatestObject);
}

#[test]
fn latest_object_of_an_empty_track_goes_anywhere() {
    let (_subscribed, mut recv) = subscribed(SubscribeFilter::LatestObject);
    assert!(recv.recv_subscribe_update(update(pair(2, 0), 2, 1)).is_err());
    assert!(recv.recv_subscribe_update(update(pair(1, 9), 2, 1)).is_ok());
    assert_eq!(recv.state.value.filter, SubscribeFilter::AbsoluteRange(pair(1, 9), 1));
}

#[test]
fn update_after_the_end_changes_nothing() {
    let (_subscribed, mut recv) = subscribed(SubscribeFilter::AbsoluteStart(pair(4, 5)));
    recv.state.release();
    assert!(recv.recv_subscribe_update(update(pair(1, 1), 0, 9)).is_ok());
    assert_eq!(recv.state.value.filter, SubscribeFilter::AbsoluteStart(pair(4, 5)));
    assert_eq!(recv.state.value.priority, 127);
}

#[test]
fn accepted_subscription_ends_as_done() {
    let (mut subscribed, mut recv) = subscribed(SubscribeFilter::LatestObject);
    let mut publisher = Publisher::new();
    assert!(subscribed.accept(&mut publisher, &mut recv.state, Some((7, 3))).is_ok());
    assert!(matches!(
        &publisher.outgoing[0],
        Message::SubscribeOk(message) if message.id == 3 && message.expires.is_none()
            && message.group_order == GroupOrder::Descending && message.latest == Some((7, 3))
    ));
    assert_eq!(recv.state.value.max_group_id, Some(7));
    recv.state.value.stream_count = 4;
    assert!(subscribed.serve(&mut publisher, &mut recv.state, Ok(())).is_ok());
    match &publisher.outgoing[1] {
        Message::SubscribeDone(message) => {
            assert_eq!((message.id, message.code, message.count), (3, 0, 4));
            assert_eq!(message.reason, "done");
        }
        other => panic!("{:?}", other),
    }
    assert!(!recv.state.open);
}

#[test]
fn failed_serving_closes_the_subscription() {
    let (subscribed, mut recv) = subscribed(SubscribeFilter::LatestObject);
    let mut publisher = Publisher::new();
    let failed = Err(SessionError::Session("reset".to_string()));
    let res = subscribed.serve(&mut publisher, &mut recv.state, failed);
    assert!(matches!(res, Err(SessionError::Session(reason)) if reason == "reset"));
    match &publisher.outgoing[0] {
        Message::SubscribeError(message) => {
            assert_eq!((message.id, message.alias, message.code), (3, 0, 500));
            assert_eq!(message.reason, "internal error: reset");
        }
        other => panic!("{:?}", other),
    }
}

#[test]
fn unsubscribed_ends_as_cancelled() {
    let (subscribed, mut recv) = subscribed(SubscribeFilter::LatestObject);
    let mut publisher = Publisher::new();
    assert!(recv.recv_unsubscribe().is_ok());
    assert!(matches!(recv.recv_unsubscribe(), Err(ServeError::Cancel)));
    assert!(matches!(subscribed.closed(&recv.state), Some(Err(ServeError::Cancel))));
    let res = subscribed.close(&mut publisher, &mut recv.state, ServeError::NotFound);
    assert!(matches!(res, Err(ServeError::Cancel)));
    assert!(matches!(
        &publisher.outgoing[0],
        Message::SubscribeError(message) if message.code == 1 && message.reason == "cancelled"
    ));
}

#[test]
fn close_is_told() {
    let (subscribed, mut recv) = subscribed(SubscribeFilter::LatestObject);
    let mut publisher = Publisher::new();
    assert!(subscribed.close(&mut publisher, &mut recv.state, ServeError::NotFound).is_ok());
    assert!(matches!(
        &publisher.outgoing[0],
        Message::SubscribeError(message) if message.code == 404 && message.reason == "not found"
    ));
    assert!(matches!(recv.state.value.closed, Err(ServeError::NotFound)));
}

#[test]
fn close_without_the_other_half_is_done() {
    let (mut subscribed, mut recv) = subscribed(SubscribeFilter::LatestObject);
    let mut publisher = Publisher::new();
    recv.state.release();
    assert!(matches!(
        subscribed.accept(&mut publisher, &mut recv.state, None),
        Err(ServeError::Cancel)
    ));
    assert!(matches!(subscribed.closed(&recv.state), Some(Ok(()))));
    let res = subscribed.close(&mut publisher, &mut recv.state, ServeError::NotFound);
    assert!(matches!(res, Err(ServeError::Done)));
    assert_eq!(publisher.outgoing.len(), 1);
}

#[test]
fn errors_have_codes_and_reasons() {
    let said = |err: ServeError| (err.code(), err.reason());
    assert_eq!(said(ServeError::Done), (0, "done".to_string()));
    assert_eq!(said(ServeError::Cancel), (1, "cancelled".to_string()));
    assert_eq!(said(ServeError::Closed(120)), (120, "closed, code=120".to_string()));
    assert_eq!(said(ServeError::NotFound), (404, "not found".to_string()));
    assert_eq!(said(ServeError::Duplicate), (409, "duplicate".to_string()));
    assert_eq!(said(ServeError::Mode), (400, "multiple stream modes".to_string()));
    assert_eq!(said(ServeError::Size), (413, "wrong size".to_string()));
    assert_eq!(
        said(ServeError::Internal("x".to_string())),
        (500, "internal error: x".to_string())
    );
}

#[test]
fn highest_group_only_goes_up() {
    let (_subscribed, mut recv) = subscribed(SubscribeFilter::LatestObject);
    assert!(object_sent(&mut recv.state, 5).is_ok());
    assert_eq!(recv.state.value.max_group_id, None);
    recv.state.value.max_group_id = Some(3);
    assert!(object_sent(&mut recv.state, 5).is_ok());
    assert!(object_sent(&mut recv.state, 4).is_ok());
    assert_eq!(recv.state.value.max_group_id, Some(5));
    recv.state.release();
    assert!(matches!(object_sent(&mut recv.state, 9), Err(ServeError::Done)));
    assert_eq!(recv.state.value.max_group_id, Some(5));
}

#[test]
fn objects_before_the_start_are_left_out() {
    let start = SubscribeFilter::AbsoluteStart(pair(4, 5));
    assert!(!serves_group(start, 3));
    assert!(serves_group(start, 4));
    assert!(serves_group(SubscribeFilter::AbsoluteRange(pair(4, 5), 6), 3));
    assert_eq!(serve_object(start, 3, 9), ObjectAction::Stop);
    assert_eq!(serve_object(start, 4, 4), ObjectAction::Skip);
    assert_eq!(serve_object(start, 4, 5), ObjectAction::Send);
    assert_eq!(serve_object(start, 5, 0), ObjectAction::Send);
    assert_eq!(serve_object(SubscribeFilter::LatestObject, 0, 0), ObjectAction::Send);
}

#[test]
fn track_is_served_on_one_stream() {
    let (subscribed, mut recv) = subscribed(SubscribeFilter::LatestObject);
    recv.state.value.max_group_id = Some(1);
    let mut serving = TrackServing::new(&subscribed.info, 5);
    let object = data::TrackObject { group_id: 2, object_id: 0, size: 4, status: 0 };
    let header = data::TrackHeader { subscribe_id: 3, track_alias: 3, publisher_priority: 5 };
    let state = &mut recv.state;
    assert!(matches!(serving.step(state, Event::Done), Action::WriteHeader(h, 5) if h == header));
    assert!(matches!(serving.step(state, Event::Done), Action::NextGroup));
    assert!(matches!(serving.step(state, Event::Group), Action::NextObject));
    let action = serving.step(state, Event::Object(object));
    assert!(matches!(action, Action::WriteObject(o) if o == object));
    assert!(matches!(serving.step(state, Event::Done), Action::NextChunk));
    for chunk in [&b"ab"[..], b"cd"] {
        let action = serving.step(state, Event::Chunk(Bytes::from_static(chunk)));
        assert!(matches!(action, Action::WriteChunk(written) if written == chunk));
        assert!(matches!(serving.step(state, Event::Done), Action::NextChunk));
    }
    assert!(matches!(serving.step(state, Event::End), Action::NextObject));
    assert!(matches!(serving.step(state, Event::End), Action::NextGroup));
    assert!(matches!(serving.step(state, Event::End), Action::Return(Ok(()))));
    assert_eq!(recv.state.value.stream_count, 1);
    assert_eq!(recv.state.value.max_group_id, Some(2));
}

#[test]
fn track_serving_fails() {
    let (subscribed, mut recv) = subscribed(SubscribeFilter::LatestObject);
    let mut serving = TrackServing::new(&subscribed.info, 5);
    let failed = Event::Failed(SessionError::Session("reset".to_string()));
    assert!(matches!(
        serving.step(&mut recv.state, failed),
        Action::Return(Err(SessionError::Session(_)))
    ));
    recv.state.release();
    let mut serving = TrackServing::new(&subscribed.info, 5);
    assert!(matches!(
        serving.step(&mut recv.state, Event::Done),
        Action::Return(Err(SessionError::Serve(ServeError::Done)))
    ));
}

#[test]
fn subgroup_is_served_under_the_filter_of_the_moment() {
    let (subscribed, mut recv) = subscribed(SubscribeFilter::AbsoluteStart(pair(4, 1)));
    recv.state.value.max_group_id = Some(0);
    let header = subscribed.subgroup_header(Subgroup { group_id: 4, subgroup_id: 0, priority: 2 });
    assert_eq!(header.publisher_priority, 2);
    let object = |object_id| data::SubgroupObject { object_id, size: 1, status: 0 };
    let mut serving = match SubgroupServing::new(header, &recv.state) {
        Some(serving) => serving,
        None => panic!(),
    };
    let action = serving.step(&mut recv.state, Event::Done);
    assert!(matches!(action, Action::WriteHeader(h, 2) if h == header));
    assert!(matches!(serving.step(&mut recv.state, Event::Done), Action::NextObject));
    let action = serving.step(&mut recv.state, Event::Object(object(0)));
    assert!(matches!(action, Action::NextObject));
    let action = serving.step(&mut recv.state, Event::Object(object(1)));
    assert!(matches!(action, Action::WriteObject(o) if o == object(1)));
    assert_eq!(recv.state.value.max_group_id, Some(0));
    assert!(matches!(serving.step(&mut recv.state, Event::Done), Action::NextChunk));
    assert_eq!(recv.state.value.max_group_id, Some(4));
    assert!(matches!(serving.step(&mut recv.state, Event::End), Action::NextObject));
    assert!(recv.recv_subscribe_update(update(pair(5, 0), 0, 1)).is_ok());
    let action = serving.step(&mut recv.state, Event::Object(object(2)));
    assert!(matches!(action, Action::Return(Ok(()))));
    assert_eq!(recv.state.value.stream_count, 1);
    assert!(SubgroupServing::new(header, &recv.state).is_none());
}

#[test]
fn subgroup_is_served_whole() {
    let (subscribed, mut recv) = subscribed(SubscribeFilter::AbsoluteStart(pair(4, 1)));
    let header = subscribed.subgroup_header(Subgroup { group_id: 4, subgroup_id: 0, priority: 2 });
    let object = |object_id| data::SubgroupObject { object_id, size: 2, status: 0 };
    let mut serving = match SubgroupServing::new(header, &recv.state) {
        Some(serving) => serving,
        None => panic!(),
    };
    let chunk = |text: &'static str| Event::Chunk(Bytes::from_static(text.as_bytes()));
    let events = vec![
        Event::Done,
        Event::Done,
        Event::Object(object(0)),
        Event::Object(object(1)),
        Event::Done,
        chunk("a"),
        Event::Done,
        chunk("b"),
        Event::Done,
        Event::End,
        Event::Object(object(2)),
        Event::Done,
        Event::End,
        Event::End,
    ];
    let mut written = Vec::new();
    let mut ended = false;
    for event in events {
        assert!(!ended);
        match serving.step(&mut recv.state, event) {
            Action::WriteHeader(h, _) => written.push(format!("group {}", h.group_id)),
            Action::WriteObject(o) => written.push(format!("object {}", o.object_id)),
            Action::WriteChunk(c) => written.push(format!("{:?}", c)),
            Action::Return(res) => ended = res.is_ok(),
            _ => {}
        }
    }
    assert!(ended);
    assert_eq!(written, vec!["group 4", "object 1", "b\"a\"", "b\"b\"", "object 2"]);
    assert_eq!(recv.state.value.stream_count, 1);
}

#[test]
fn subgroups_are_served_until_the_last_task() {
    let (subscribed, _recv) = subscribed(SubscribeFilter::LatestObject);
    let subgroup = Subgroup { group_id: 4, subgroup_id: 1, priority: 2 };
    let mut serving = SubgroupsServing::new();
    let header = serving.next_subgroup(&subscribed, Ok(Some(subgroup)));
    assert_eq!(header.map(|h| (h.subscribe_id, h.group_id, h.subgroup_id)), Some((3, 4, 1)));
    assert!(serving.outcome().is_none());
    assert!(serving.next_subgroup(&subscribed, Ok(None)).is_none());
    assert!(serving.outcome().is_none());
    serving.task_ended();
    assert!(matches!(serving.outcome(), Some(Ok(()))));

    let mut serving = SubgroupsServing::new();
    assert!(serving.next_subgroup(&subscribed, Err(ServeError::Size)).is_none());
    assert!(matches!(serving.outcome(), Some(Err(ServeError::Size))));

    let mut serving = SubgroupsServing::new();
    serving.closed(Err(ServeError::Cancel));
    assert!(matches!(serving.outcome(), Some(Err(ServeError::Cancel))));
}

#[test]
fn datagram_is_served_with_its_length() {
    let (subscribed, _recv) = subscribed(SubscribeFilter::LatestObject);
    let sent = subscribed.serve_datagram(Datagram {
        group_id: 1,
        object_id: 2,
        priority: 4,
        status: 0,
        payload: Bytes::from_static(b"hello"),
    });
    assert_eq!((sent.subscribe_id, sent.track_alias), (3, 3));
    assert_eq!((sent.group_id, sent.object_id, sent.publisher_priority), (1, 2, 4));
    assert_eq!(sent.payload_len, 5);
    assert_eq!(&sent.payload[..], b"hello");
}
