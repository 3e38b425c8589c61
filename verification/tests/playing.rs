//! The playing of tracks over several paths.
use moq_subscribe::coding::{Params, Tuple};
use moq_subscribe::config::{
    check_scheme, failover_method, init_mode, moq_url, session_id, subscriber_params, task_ended,
    AfterTask, InitMode, RelayUrl, SkipUnit,
};
use moq_subscribe::message::{SubscribePair, SubscribeUpdate};
use moq_subscribe::multipath::locations::Locations;
use moq_subscribe::multipath::playout::{Timestamp, UpdateRequest};
use moq_subscribe::multipath::skip::{adapt, Estimate};
use moq_subscribe::multipath::window::SlidingWindow;
use moq_subscribe::multipath::{
    FailoverMethod, MultipathOptions, MultipathOut, SkipMode, SubscriberParams,
};
use moq_subscribe::serve::Track;
use moq_subscribe::session::{SubscribeFilter, SubscribedRecv, SubscribedState, Subscriber};
use moq_subscribe::smartout::{SessionUpdate, SmartOut, UpdateBasis};
use moq_subscribe::watch::State;

const NONE: Estimate = Estimate { single_object: false, groups: 0 };

fn pair(group: u64, object: u64) -> SubscribePair {
    SubscribePair { group, object }
}

fn at(secs: i64, nanos: u32) -> Timestamp {
    Timestamp { secs, nanos }
}

fn key() -> String {
    "/live:1.m4s".to_string()
}

fn track() -> Track {
    Track { namespace: Tuple::from_utf8_path("live"), name: "1.m4s".to_string() }
}

fn out(methods: &[FailoverMethod]) -> MultipathOut {
    let mut out = MultipathOut::new(MultipathOptions { non_preemptive_filtering: true });
    for (i, failover_method) in methods.iter().enumerate() {
        let params = SubscriberParams { failover_method: *failover_method, bandwidth_hint: 1000 };
        out.add_subscriber(key(), i as u64 + 1, i as u64 + 10, params);
    }
    out
}

fn last_updates(out: &MultipathOut) -> Vec<Option<SubscribePair>> {
    out.tracks.entries[0].1.subscriptions.iter().map(|s| s.last_update).collect()
}

#[test]
fn keys_are_made_of_the_full_name() {
    assert_eq!(MultipathOut::create_key(&track()), key());
    assert_eq!(SmartOut::create_key(&track()), key());
}

#[test]
fn window_keeps_the_latest() {
    let mut window = SlidingWindow::new(3);
    for t in [1i128, 2, 3, 4, 5] {
        window.insert(t);
    }
    assert_eq!(window.values, vec![3, 4, 5]);
}

#[test]
fn window_needs_three_values() {
    let mut window = SlidingWindow::new(10);
    window.insert(1i128);
    window.insert(1);
    assert!(!window.enough());
    window.insert(1);
    assert!(window.enough());
}

#[test]
fn p95_of_the_values() {
    let mut window = SlidingWindow::new(100);
    assert_eq!(window.p95(), None);
    window.insert(7i128);
    assert_eq!(window.p95(), Some(7));
    window.insert(-3);
    assert_eq!(window.p95(), Some(7));
    let mut window = SlidingWindow::new(20);
    for t in (1..=20).rev() {
        window.insert(t as i128 * 10);
    }
    assert_eq!(window.p95(), Some(200));
    let mut window = SlidingWindow::new(40);
    for t in (1..=40).rev() {
        window.insert(t as i128);
    }
    assert_eq!(window.p95(), Some(39));
}

#[test]
fn time_between_timestamps() {
    assert_eq!(at(10, 5).since(at(9, 999_999_999)), 6);
    assert_eq!(at(9, 0).since(at(10, 1)), -1_000_000_001);
}

#[test]
fn skip_targets() {
    assert_eq!(SkipMode::Disabled.skip_target(pair(3, 4)), None);
    assert_eq!(SkipMode::SameGroupNextObject(2).skip_target(pair(3, 4)), Some(pair(3, 6)));
    assert_eq!(SkipMode::NextGroupFirstObject(2).skip_target(pair(3, 4)), Some(pair(5, 0)));
    assert!(!SkipMode::SameGroupNextObject(2).can_skip(pair(3, u64::MAX - 1)));
    assert!(SkipMode::NextGroupFirstObject(2).can_skip(pair(3, u64::MAX)));
}

#[test]
fn estimates_choose_the_mode() {
    let one = Estimate { single_object: true, groups: 4 };
    assert_eq!(adapt(one, 2), SkipMode::SameGroupNextObject(1));
    assert_eq!(adapt(one, 1), SkipMode::NextGroupFirstObject(4));
    assert_eq!(
        adapt(Estimate { single_object: false, groups: 3 }, 9),
        SkipMode::NextGroupFirstObject(3)
    );
}

#[test]
fn each_object_is_played_once() {
    let mut out = out(&[FailoverMethod::DynamicAdaptive, FailoverMethod::DynamicAdaptive]);
    assert!(out.write_object(1, &track(), pair(1, 0), 100, at(1, 0)));
    assert!(!out.write_object(2, &track(), pair(1, 0), 300, at(1, 5)));
    assert!(out.write_object(2, &track(), pair(1, 1), 50, at(1, 7)));
    assert!(!out.write_group_object(1, key(), pair(0, 9), 50, at(1, 8)));
    assert!(out.write_group_object(1, key(), pair(2, 0), 50, at(1, 10)));
    let playout = &out.tracks.entries[0].1;
    assert_eq!(playout.last_object, Some((pair(2, 0), at(1, 10))));
    assert_eq!(playout.n_unique, 4);
    assert_eq!(playout.max_object_size, 300);
    assert_eq!(playout.max_object_per_group, 10);
    assert_eq!(playout.interarrival_times.values, vec![7, 3]);
    assert_eq!(playout.subscriptions[0].n_duplicate, 0);
    assert_eq!(playout.subscriptions[1].n_duplicate, 1);
}

#[test]
fn playing_stays_in_order_while_subscriptions_change() {
    let skip = FailoverMethod::Static(SkipMode::NextGroupFirstObject(1));
    let params = SubscriberParams { failover_method: skip, bandwidth_hint: 1 };
    let mut out = out(&[skip, skip]);
    assert!(out.write_object(1, &track(), pair(1, 3), 1, at(1, 0)));
    out.remove_subscriber(key(), 1);
    assert!(!out.write_object(2, &track(), pair(1, 3), 1, at(1, 1)));
    out.clear_subscribers();
    out.add_subscriber(key(), 5, 50, params);
    assert!(!out.write_object(5, &track(), pair(1, 2), 1, at(1, 2)));
    assert!(out.write_object(5, &track(), pair(1, 4), 1, at(1, 3)));
}

#[test]
fn starts_never_go_back_while_other_subscriptions_change() {
    let skip = FailoverMethod::Static(SkipMode::NextGroupFirstObject(2));
    let params = SubscriberParams { failover_method: skip, bandwidth_hint: 1 };
    let mut out = out(&[skip, skip]);
    let mut starts = Vec::new();
    for (i, group) in [4, 2, 9, 9, 3].into_iter().enumerate() {
        let estimates = vec![NONE; out.tracks.entries[0].1.subscriptions.len()];
        for update in out.skip_ahead(1, &key(), pair(group, 0), &estimates) {
            if update.session_id == 2 {
                starts.push(update.filter);
            }
        }
        out.add_subscriber(key(), 10 + i as u64, 1, params);
        out.remove_subscriber(key(), 9 + i as u64);
    }
    let start = |group| SubscribeFilter::AbsoluteStart(pair(group, 0));
    assert_eq!(starts, vec![start(6), start(11), start(11)]);
}

#[test]
fn late_objects_are_no_duplicates() {
    let mut out = out(&[FailoverMethod::DynamicAdaptive, FailoverMethod::DynamicAdaptive]);
    assert!(out.write_object(1, &track(), pair(1, 1), 1, at(1, 0)));
    assert!(!out.write_object(2, &track(), pair(1, 0), 1, at(1, 1)));
    let playout = &out.tracks.entries[0].1;
    assert_eq!(playout.n_unique, 2);
    assert_eq!(playout.subscriptions[1].n_duplicate, 0);
    assert!(!out.write_object(1, &track(), pair(1, 0), 1, at(1, 2)));
    let playout = &out.tracks.entries[0].1;
    assert_eq!(playout.n_unique, 2);
    assert_eq!(playout.subscriptions[0].n_duplicate, 1);
}

#[test]
fn objects_per_group_are_counted_up_to_the_newest() {
    let mut out = out(&[FailoverMethod::DynamicAdaptive]);
    for (object, expected) in [(0, 1), (1, 2), (2, 3)] {
        assert!(out.write_object(1, &track(), pair(1, object), 1, at(1, object as u32)));
        assert_eq!(out.tracks.entries[0].1.max_object_per_group, expected);
    }
}

#[test]
fn locations_are_a_set() {
    let mut locations = Locations::new();
    assert!(!locations.contains(pair(1, 1)));
    for location in [pair(2, 0), pair(1, 1), pair(1, 0), pair(3, 7)] {
        assert!(locations.insert(location));
        assert!(!locations.insert(location));
        assert!(locations.contains(location));
    }
    assert!(!locations.contains(pair(1, 2)));
}

#[test]
fn others_are_told_to_skip() {
    let skip = FailoverMethod::Static(SkipMode::SameGroupNextObject(2));
    let mut out = out(&[skip, skip, skip]);
    assert!(out.write_object(2, &track(), pair(1, 0), 1, at(1, 0)));
    let updates = out.skip_ahead(2, &key(), pair(1, 0), &vec![NONE; 3]);
    let request = |session_id| UpdateRequest {
        session_id,
        subscribe_id: session_id + 9,
        filter: SubscribeFilter::AbsoluteStart(pair(1, 2)),
        non_preemptive_filtering: true,
        subscriber_priority: 127,
    };
    assert_eq!(updates, vec![request(1), request(3)]);
    assert_eq!(last_updates(&out), vec![Some(pair(1, 2)), None, Some(pair(1, 2))]);
}

#[test]
fn nobody_is_told_before_the_sender_has_come_to_its_own_start() {
    let skip = FailoverMethod::Static(SkipMode::SameGroupNextObject(2));
    let mut out = out(&[skip, skip]);
    assert_eq!(out.skip_ahead(1, &key(), pair(1, 0), &vec![NONE; 2]).len(), 1);
    assert_eq!(out.skip_ahead(2, &key(), pair(1, 1), &vec![NONE; 2]).len(), 0);
    assert_eq!(out.skip_ahead(2, &key(), pair(1, 2), &vec![NONE; 2]).len(), 1);
    assert_eq!(last_updates(&out), vec![Some(pair(1, 4)), Some(pair(1, 2))]);
}

#[test]
fn nobody_is_told_to_go_back() {
    let skip = FailoverMethod::Static(SkipMode::NextGroupFirstObject(1));
    let mut out = out(&[skip, skip]);
    assert_eq!(out.skip_ahead(1, &key(), pair(5, 0), &vec![NONE; 2]).len(), 1);
    assert_eq!(out.skip_ahead(1, &key(), pair(4, 9), &vec![NONE; 2]).len(), 0);
    assert_eq!(last_updates(&out), vec![None, Some(pair(6, 0))]);
}

#[test]
fn later_updates_are_accepted() {
    let skip = FailoverMethod::Static(SkipMode::SameGroupNextObject(2));
    let mut out = out(&[skip, skip]);
    let mut recv = SubscribedRecv {
        state: State::new(SubscribedState {
            filter: SubscribeFilter::AbsoluteStart(pair(1, 2)),
            ..SubscribedState::default()
        }),
    };
    for object in [0, 1, 5] {
        let updates = out.skip_ahead(1, &key(), pair(1, object), &vec![NONE; 2]);
        assert_eq!(updates.len(), 1);
        let update = updates[0];
        let message = SubscribeUpdate::new(
            &mut Subscriber::new(),
            update.subscribe_id,
            update.filter,
            update.subscriber_priority,
            Params::default(),
        );
        assert!(recv.recv_subscribe_update(message).is_ok());
    }
    assert_eq!(recv.state.value.filter, SubscribeFilter::AbsoluteStart(pair(1, 7)));
}

#[test]
fn disabled_skip_leaves_the_others_alone() {
    let skip = FailoverMethod::Static(SkipMode::NextGroupFirstObject(1));
    let off = FailoverMethod::Static(SkipMode::Disabled);
    let mut out = out(&[skip, off, FailoverMethod::DynamicAdaptive, skip]);
    let updates = out.skip_ahead(1, &key(), pair(4, 1), &vec![NONE; 4]);
    assert_eq!(updates.len(), 1);
    assert_eq!(updates[0].session_id, 4);
    assert_eq!(updates[0].filter, SubscribeFilter::AbsoluteStart(pair(5, 0)));
    assert_eq!(last_updates(&out), vec![None, None, None, Some(pair(5, 0))]);
}

#[test]
fn adaptive_skip_waits_for_enough_samples() {
    let mut out = out(&[FailoverMethod::DynamicAdaptive, FailoverMethod::DynamicAdaptive]);
    let estimates = vec![Estimate { single_object: true, groups: 2 }; 2];
    for i in 0..4 {
        assert!(out.write_object(1, &track(), pair(1, i), 1, at(1, i as u32)));
        let updates = out.skip_ahead(1, &key(), pair(1, i), &estimates);
        assert_eq!(updates.len(), if i < 3 { 0 } else { 1 });
    }
    assert_eq!(last_updates(&out), vec![None, Some(pair(1, 4))]);
}

#[test]
fn observations_need_enough_samples() {
    let mut out = out(&[FailoverMethod::DynamicAdaptive]);
    for i in 0..4 {
        assert!(out.write_object(1, &track(), pair(1, i), 10 * i, at(1, (i * i) as u32)));
        let observed = out.tracks.entries[0].1.observe(1);
        assert_eq!(observed.is_some(), i == 3);
    }
    let observed = out.tracks.entries[0].1.observe(1).map(|o| {
        (o.max_object_size, o.sender_bandwidth, o.interarrival_time, o.max_object_per_group)
    });
    assert_eq!(observed, Some((30, 1000, 5, 4)));
}

#[test]
fn subscribers_come_and_go() {
    let skip = FailoverMethod::Static(SkipMode::NextGroupFirstObject(1));
    let mut out = out(&[skip, skip]);
    out.skip_ahead(1, &key(), pair(5, 0), &vec![NONE; 2]);
    let params = SubscriberParams { failover_method: skip, bandwidth_hint: 5 };
    out.add_subscriber(key(), 2, 77, params);
    assert_eq!(out.tracks.entries[0].1.subscriptions.len(), 2);
    assert_eq!(out.tracks.entries[0].1.subscriptions[1].subscribe_id, 77);
    assert_eq!(last_updates(&out), vec![None, None]);
    out.remove_subscriber(key(), 1);
    out.remove_subscriber(key(), 9);
    out.remove_subscriber("other".to_string(), 2);
    assert_eq!(out.tracks.entries[0].1.subscriptions.len(), 1);
    out.add_subscriber("other".to_string(), 1, 1, params);
    assert_eq!(out.tracks.entries.len(), 2);
    out.clear_subscribers();
    assert_eq!(out.tracks.entries.len(), 2);
    assert!(out.tracks.entries.iter().all(|(_, playout)| playout.subscriptions.is_empty()));
}

#[test]
fn fixed_offset_tells_the_others() {
    let mut out = SmartOut::new(UpdateBasis::NextGroupFirstObject(2));
    out.add_subscriber(key(), 1, 10);
    out.add_subscriber(key(), 2, 20);
    assert!(out.write_object(&track(), 3, 4));
    let updates = out.object_written(1, key(), 3, 4);
    assert_eq!(
        updates,
        vec![SessionUpdate {
            session_id: 2,
            subscribe_id: 20,
            filter: SubscribeFilter::AbsoluteStart(pair(5, 0)),
            subscriber_priority: 127,
        }]
    );
    assert!(!out.write_object(&track(), 3, 4));
    assert!(!out.write_group_object(key(), 2, 9));
    assert!(out.write_group_object(key(), 3, 5));
    assert!(out.write_group_object("other".to_string(), 0, 0));
    assert!(UpdateBasis::SameGroupNextObject(1).can_update(0, 7));
    assert!(!UpdateBasis::SameGroupNextObject(1).can_update(0, u64::MAX));
}

#[test]
fn offset_within_the_group() {
    let mut out = SmartOut::new(UpdateBasis::SameGroupNextObject(3));
    out.add_subscriber(key(), 1, 10);
    let updates = out.object_written(9, key(), 3, 4);
    assert_eq!(updates[0].filter, SubscribeFilter::AbsoluteStart(pair(3, 7)));
}

#[test]
fn failover_methods() {
    assert_eq!(failover_method(true, 3, SkipUnit::Object), FailoverMethod::DynamicAdaptive);
    assert_eq!(
        failover_method(false, 0, SkipUnit::Object),
        FailoverMethod::Static(SkipMode::Disabled)
    );
    assert_eq!(
        failover_method(false, 3, SkipUnit::Object),
        FailoverMethod::Static(SkipMode::SameGroupNextObject(3))
    );
    assert_eq!(
        failover_method(false, 3, SkipUnit::default()),
        FailoverMethod::Static(SkipMode::NextGroupFirstObject(3))
    );
}

#[test]
fn relays_are_numbered_from_one() {
    assert_eq!(session_id(0), 1);
    assert_eq!(session_id(4), 5);
    assert!(matches!(init_mode(0), InitMode::InitTrack));
    assert!(matches!(init_mode(1), InitMode::Direct(name) if name == "1.m4s"));
    let method = FailoverMethod::DynamicAdaptive;
    assert_eq!(subscriber_params(method, &vec![7], 0).bandwidth_hint, 7);
    assert_eq!(subscriber_params(method, &vec![7], 1).bandwidth_hint, 2_000_000);
}

#[test]
fn tasks_end() {
    let complete = Some(Err("Finished receiving the media".to_string()));
    let failed = Some(Err("reset".to_string()));
    assert_eq!(task_ended(false, &complete), AfterTask::Complete);
    assert_eq!(task_ended(true, &complete), AfterTask::Complete);
    assert_eq!(task_ended(false, &failed), AfterTask::NextRelay);
    assert_eq!(task_ended(true, &failed), AfterTask::Wait);
    assert_eq!(task_ended(false, &Some(Ok(()))), AfterTask::NextRelay);
    assert_eq!(task_ended(true, &Some(Ok(()))), AfterTask::Wait);
    assert_eq!(task_ended(false, &None), AfterTask::Wait);
    assert_eq!(task_ended(true, &None), AfterTask::Wait);
}

#[test]
fn urls_of_relays() {
    let url = match moq_url("HTTPS://Relay.example:4443/path") {
        Ok(url) => url,
        Err(err) => panic!("{}", err),
    };
    assert_eq!(url.scheme, "https");
    assert_eq!(url.text, "https://relay.example:4443/path");
    assert!(moq_url("moqt://relay.example").is_ok());
    assert_eq!(
        moq_url("http://relay.example").err(),
        Some("url scheme must be https:// for WebTransport & moqt:// for QUIC".to_string())
    );
    assert_eq!(moq_url("relay").err(), Some("relative URL without a base".to_string()));
}

#[test]
fn schemes_of_relays() {
    let url = |scheme: &str| RelayUrl { scheme: scheme.to_string(), text: "x".to_string() };
    assert!(check_scheme(Ok(url("https"))).is_ok());
    assert!(check_scheme(Ok(url("moqt"))).is_ok());
    assert!(check_scheme(Ok(url("moq"))).is_err());
    assert_eq!(check_scheme(Err("bad".to_string())).err(), Some("bad".to_string()));
}
