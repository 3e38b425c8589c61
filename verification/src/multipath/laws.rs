//! What holds of the playing over several paths, in terms of groups, objects and subscriptions.
use super::playout::all_cleared;
use super::playout::cleared;
use super::playout::distinct_sessions;
use super::playout::has_session;
use super::playout::session_index;
use super::playout::subscribed;
use super::playout::track_key;
use super::playout::unsubscribed;
use super::playout::with_subscription;
use super::playout::without_session;
use super::playout::written;
use super::playout::Arrival;
use super::playout::PlayoutView;
use super::playout::Subscription;
use super::playout::Timestamp;
use super::skip::adaptive_mode;
use super::skip::Estimate;
use super::skip::FailoverMethod;
use super::skip::SkipMode;
use super::window::ascending;
use super::window::window_insert;
use crate::coding::tuple::path_text;
use crate::message::subscribe::SubscribePair;
use crate::serve::Track;
use crate::session::subscribe::SubscribeFilter;
use vstd::prelude::*;

verus! {

/// A skip within the group leads so many objects ahead, a skip to another group to its first object so
/// many groups ahead, as far as these can be named. A disabled skip leads nowhere.
pub proof fn skip_leads_to_group_and_object(n: u64, current: SubscribePair)
    ensures
        SkipMode::Disabled.target(current) is None,
        SkipMode::Disabled.fits(current),
        SkipMode::SameGroupNextObject(n).fits(current) <==> current.object + n <= u64::MAX,
        SkipMode::NextGroupFirstObject(n).fits(current) <==> current.group + n <= u64::MAX,
        current.object + n <= u64::MAX ==> {
            &&& SkipMode::SameGroupNextObject(n).target(current) matches Some(next)
            &&& next.group == current.group
            &&& next.object == current.object + n
        },
        current.group + n <= u64::MAX ==> {
            &&& SkipMode::NextGroupFirstObject(n).target(current) matches Some(next)
            &&& next.group == current.group + n
            &&& next.object == 0
        },
{
}

/// An adaptive skip stays within the group, by one object, exactly where no more than one object is
/// estimated and groups have more than one. Otherwise it leads to the first object so many groups
/// ahead as are estimated.
pub proof fn adaptive_skip_leads_past_the_estimate(
    estimate: Estimate,
    max_object_per_group: u64,
    current: SubscribePair,
)
    requires
        current.group + estimate.groups <= u64::MAX,
        current.object < u64::MAX,
    ensures
        ({
            let target = adaptive_mode(estimate, max_object_per_group).target(current);
            &&& adaptive_mode(estimate, max_object_per_group).fits(current)
            &&& estimate.single_object && max_object_per_group >= 2 ==> {
                &&& target matches Some(next)
                &&& next.group == current.group
                &&& next.object == current.object + 1
            }
            &&& !estimate.single_object || max_object_per_group <= 1 ==> {
                &&& target matches Some(next)
                &&& next.group == current.group + estimate.groups
                &&& next.object == 0
            }
        }),
{
}

/// A static method skips by its own mode, whatever has been observed and estimated. The adaptive one
/// needs three interarrival times, and goes then by the estimate for the subscription and by the
/// objects of a group.
pub proof fn method_decides_the_mode(
    playout: PlayoutView,
    i: int,
    estimates: Seq<Estimate>,
    mode: SkipMode,
)
    ensures
        playout.subscriptions[i].failover_method == FailoverMethod::Static(mode) ==> playout.mode(
            i,
            estimates,
        ) == Some(mode),
        playout.subscriptions[i].failover_method is DynamicAdaptive ==> {
            &&& playout.mode(i, estimates) is Some <==> playout.interarrival_times.len() >= 3
            &&& playout.mode(i, estimates) matches Some(SkipMode::SameGroupNextObject(n)) ==> n == 1
                && estimates[i].single_object && playout.max_object_per_group > 1
            &&& playout.mode(i, estimates) matches Some(SkipMode::NextGroupFirstObject(n)) ==> n
                == estimates[i].groups && !(estimates[i].single_object
                && playout.max_object_per_group > 1)
            &&& !(playout.mode(i, estimates) matches Some(SkipMode::Disabled))
        },
{
}

/// A subscription is told to go on at the target of its skip exactly where it is in another session
/// than the sender, it skips at all, the playing has come to where the sender was told to go on, and the
/// target does not lie before where it was told itself.
pub proof fn update_is_sent_exactly_when_it_helps(
    playout: PlayoutView,
    i: int,
    sender: int,
    current: SubscribePair,
    estimates: Seq<Estimate>,
    next: SubscribePair,
)
    requires
        distinct_sessions(playout.subscriptions),
        0 <= i < playout.subscriptions.len(),
        0 <= sender < playout.subscriptions.len(),
    ensures
        ({
            let told = playout.subscriptions[i].last_update;
            let sender_told = playout.subscriptions[sender].last_update;
            playout.update(i, playout.subscriptions[sender].session_id, current, estimates) == Some(
                next,
            ) <==> {
                &&& i != sender
                &&& playout.mode(i, estimates) matches Some(mode)
                &&& mode.target(current) == Some(next)
                &&& sender_told matches Some(last) ==> current.group > last.group || (current.group
                    == last.group && current.object >= last.object)
                &&& told matches Some(last) ==> next.group > last.group || (next.group == last.group
                    && next.object >= last.object)
            }
        }),
{
    let session_id = playout.subscriptions[sender].session_id;
    assert(has_session(playout.subscriptions, session_id));
    let j = session_index(playout.subscriptions, session_id);
    assert(0 <= j < playout.subscriptions.len() && playout.subscriptions[j].session_id
        == session_id);
    assert(j == sender);
}

/// Skipping ahead changes of each subscription only where it was told to go on, and of the track nothing
/// else.
pub proof fn skipping_moves_only_the_starts(
    playout: PlayoutView,
    sender_session_id: u64,
    current: SubscribePair,
    estimates: Seq<Estimate>,
    i: int,
)
    requires
        0 <= i < playout.subscriptions.len(),
    ensures
        ({
            let after = playout.skipped(sender_session_id, current, estimates);
            let s = playout.subscriptions[i];
            let t = after.subscriptions[i];
            &&& after.subscriptions.len() == playout.subscriptions.len()
            &&& after.last_object == playout.last_object
            &&& after.locations == playout.locations
            &&& after.n_unique == playout.n_unique
            &&& after.max_object_size == playout.max_object_size
            &&& after.interarrival_times == playout.interarrival_times
            &&& after.window_length == playout.window_length
            &&& after.max_object_per_group == playout.max_object_per_group
            &&& t.session_id == s.session_id
            &&& t.subscribe_id == s.subscribe_id
            &&& t.failover_method == s.failover_method
            &&& t.bandwidth_hint == s.bandwidth_hint
            &&& t.n_duplicate == s.n_duplicate
            &&& playout.update(i, sender_session_id, current, estimates) is None ==> t.last_update
                == s.last_update
            &&& playout.update(i, sender_session_id, current, estimates) is Some ==> t.last_update
                == playout.update(i, sender_session_id, current, estimates)
        }),
{
}

/// The first subscriptions that are told to go on somewhere.
pub open spec fn told(
    playout: PlayoutView,
    n: nat,
    sender_session_id: u64,
    current: SubscribePair,
    estimates: Seq<Estimate>,
) -> Seq<int> {
    Seq::new(n, |i: int| i).filter(
        |i: int| playout.update(i, sender_session_id, current, estimates) is Some,
    )
}

/// Each subscription that is told to go on somewhere gets one update, in the order of the subscriptions,
/// over its own session, under its own identity and with that start; no other gets one.
pub proof fn each_update_goes_to_its_subscription(
    playout: PlayoutView,
    n: nat,
    sender_session_id: u64,
    current: SubscribePair,
    estimates: Seq<Estimate>,
    non_preemptive_filtering: bool,
)
    ensures
        ({
            let requests = playout.requests(
                n,
                sender_session_id,
                current,
                estimates,
                non_preemptive_filtering,
            );
            let told = told(playout, n, sender_session_id, current, estimates);
            &&& requests.len() == told.len()
            &&& forall|i: int|
                0 <= i < requests.len() ==> {
                    let s = playout.subscriptions[told[i]];
                    &&& (#[trigger] requests[i]).session_id == s.session_id
                    &&& requests[i].subscribe_id == s.subscribe_id
                    &&& requests[i].filter == SubscribeFilter::AbsoluteStart(
                        playout.update(told[i], sender_session_id, current, estimates)->0,
                    )
                    &&& requests[i].non_preemptive_filtering == non_preemptive_filtering
                    &&& requests[i].subscriber_priority == 127
                }
        }),
    decreases n,
{
    reveal(Seq::filter);
    let all = Seq::new(n, |i: int| i);
    if n > 0 {
        let m = (n - 1) as nat;
        each_update_goes_to_its_subscription(
            playout,
            m,
            sender_session_id,
            current,
            estimates,
            non_preemptive_filtering,
        );
        assert(all.drop_last() =~= Seq::new(m, |i: int| i));
        assert(all.last() == n - 1);
    }
}

/// An object is played where nothing has been played yet, where its group is a later one than that of
/// the last one, or where it is a later object of the same group.
pub proof fn playing_goes_by_group_and_object(
    playout: PlayoutView,
    last: SubscribePair,
    time: Timestamp,
    current: SubscribePair,
)
    ensures
        playout.last_object is None ==> playout.plays(current),
        playout.last_object == Some((last, time)) ==> (playout.plays(current) <==> current.group
            > last.group || (current.group == last.group && current.object > last.object)),
{
}

/// What an object that comes leaves of the track: the last one played where it is played, the greatest
/// size so far, the objects of a group so far, and one more interarrival time where it is played and is
/// not the first. The subscriptions stay but for the duplicates of the sender.
pub proof fn object_leaves_its_traces(
    playout: PlayoutView,
    sender: int,
    current: SubscribePair,
    size: u64,
    now: Timestamp,
    last: SubscribePair,
    time: Timestamp,
)
    requires
        playout.wf(),
        0 <= sender < playout.subscriptions.len(),
        playout.can_count(playout.subscriptions[sender].session_id, current),
    ensures
        ({
            let session_id = playout.subscriptions[sender].session_id;
            let after = playout.received(session_id, current, size, now);
            &&& playout.plays(current) ==> after.last_object == Some((current, now))
            &&& !playout.plays(current) ==> after.last_object == playout.last_object
            &&& after.max_object_size >= playout.max_object_size
            &&& after.max_object_size >= size
            &&& after.max_object_size == playout.max_object_size || after.max_object_size == size
            &&& after.max_object_per_group >= playout.max_object_per_group
            &&& after.max_object_per_group > current.object
            &&& after.max_object_per_group == playout.max_object_per_group
                || after.max_object_per_group == current.object + 1
            &&& !playout.plays(current) || playout.last_object is None ==> after.interarrival_times
                == playout.interarrival_times
            &&& playout.plays(current) && playout.last_object == Some((last, time)) ==> {
                &&& after.interarrival_times.len() >= 1
                &&& after.interarrival_times.len() <= 10
                &&& after.interarrival_times.last() == (now.secs - time.secs) * 1_000_000_000 + (
                now.nanos - time.nanos)
            }
            &&& after.window_length == playout.window_length
            &&& after.subscriptions.len() == playout.subscriptions.len()
            &&& forall|j: int|
                0 <= j < playout.subscriptions.len() ==> {
                    let s = playout.subscriptions[j];
                    let t = #[trigger] after.subscriptions[j];
                    &&& t.session_id == s.session_id
                    &&& t.subscribe_id == s.subscribe_id
                    &&& t.failover_method == s.failover_method
                    &&& t.bandwidth_hint == s.bandwidth_hint
                    &&& t.last_update == s.last_update
                    &&& t.n_duplicate == s.n_duplicate + if j == sender
                        && playout.locations.contains(current) {
                        1int
                    } else {
                        0
                    }
                }
        }),
{
    let session_id = playout.subscriptions[sender].session_id;
    assert(has_session(playout.subscriptions, session_id));
    let j = session_index(playout.subscriptions, session_id);
    assert(0 <= j < playout.subscriptions.len() && playout.subscriptions[j].session_id
        == session_id);
    assert(j == sender);
    if let Some((_, t)) = playout.last_object {
        assert(i128::MIN <= now.total() - t.total() <= i128::MAX);
    }
}

/// Points in time lie apart by their seconds and their nanoseconds.
pub proof fn time_goes_by_seconds_and_nanoseconds(a: Timestamp, b: Timestamp)
    ensures
        a.total() - b.total() == (a.secs - b.secs) * 1_000_000_000 + (a.nanos - b.nanos),
{
}

/// A value that comes is the last one, the others stay in their order, and of a full window the oldest
/// goes.
pub proof fn window_moves_by_one<T>(values: Seq<T>, max_length: nat, t: T)
    requires
        0 < max_length,
        values.len() <= max_length,
    ensures
        ({
            let after = window_insert(values, max_length, t);
            let gone = if values.len() == max_length {
                1int
            } else {
                0
            };
            &&& after.len() == values.len() + 1 - gone
            &&& after.len() <= max_length
            &&& after.last() == t
            &&& forall|i: int|
                0 <= i < after.len() - 1 ==> #[trigger] after[i] == values[i + gone]
        }),
{
}

/// What is observed of a track, once there are three interarrival times: the greatest size, the hint for
/// the sender, the 95th percentile of these times, which at least 95 in 100 of them do not exceed, and
/// the objects of a group.
pub proof fn observation_says_what_was_seen(playout: PlayoutView, sender: int)
    requires
        distinct_sessions(playout.subscriptions),
        0 <= sender < playout.subscriptions.len(),
    ensures
        ({
            let observed = playout.observation(playout.subscriptions[sender].session_id);
            let times = playout.interarrival_times;
            &&& observed is Some <==> times.len() >= 3
            &&& observed matches Some(o) ==> {
                &&& o.max_object_size == playout.max_object_size
                &&& o.sender_bandwidth == playout.subscriptions[sender].bandwidth_hint
                &&& o.max_object_per_group == playout.max_object_per_group
                &&& times.contains(o.interarrival_time)
                &&& exists|index: int|
                    {
                        &&& 0 <= index < times.len()
                        &&& #[trigger] ascending(times)[index] == o.interarrival_time
                        &&& 100 * index <= 95 * times.len() < 100 * (index + 1)
                    }
            }
        }),
{
    let session_id = playout.subscriptions[sender].session_id;
    assert(has_session(playout.subscriptions, session_id));
    let j = session_index(playout.subscriptions, session_id);
    assert(0 <= j < playout.subscriptions.len() && playout.subscriptions[j].session_id
        == session_id);
    assert(j == sender);
    let times = playout.interarrival_times;
    if times.len() >= 3 {
        super::window::p95_splits_the_values(times);
        let index = 95 * times.len() as int / 100;
        assert(ascending(times)[index] == playout.observation(session_id)->0.interarrival_time);
    }
}

/// A subscription that is added is the one of its session from then on; those of other sessions stay.
pub proof fn added_subscription_is_that_of_its_session(
    subscriptions: Seq<Subscription>,
    subscription: Subscription,
    other: u64,
)
    requires
        distinct_sessions(subscriptions),
        other != subscription.session_id,
    ensures
        ({
            let after = with_subscription(subscriptions, subscription);
            &&& distinct_sessions(after)
            &&& after.contains(subscription)
            &&& forall|s: Subscription|
                s.session_id == other ==> (#[trigger] after.contains(s) <==> subscriptions.contains(
                    s,
                ))
            &&& forall|s: Subscription|
                s.session_id == subscription.session_id && #[trigger] after.contains(s) ==> s
                    == subscription
        }),
{
    let after = with_subscription(subscriptions, subscription);
    let id = subscription.session_id;
    if has_session(subscriptions, id) {
        let k = session_index(subscriptions, id);
        assert(0 <= k < subscriptions.len() && subscriptions[k].session_id == id);
        assert(after[k] == subscription);
        assert forall|i: int| 0 <= i < after.len() && i != k implies #[trigger] after[i]
            == subscriptions[i] by {}
        assert forall|s: Subscription| s.session_id == other implies (#[trigger] after.contains(s)
            <==> subscriptions.contains(s)) by {
            if subscriptions.contains(s) {
                let i = choose|i: int| 0 <= i < subscriptions.len() && subscriptions[i] == s;
                assert(after[i] == s);
            }
        }
    } else {
        let n = subscriptions.len() as int;
        assert(after[n] == subscription);
        assert forall|i: int| 0 <= i < n implies #[trigger] after[i] == subscriptions[i] by {}
        assert forall|i: int| 0 <= i < n implies (#[trigger] subscriptions[i]).session_id != id by {
            assert(has_session(subscriptions, subscriptions[i].session_id));
        }
        assert forall|s: Subscription| s.session_id == other implies (#[trigger] after.contains(s)
            <==> subscriptions.contains(s)) by {
            if subscriptions.contains(s) {
                let i = choose|i: int| 0 <= i < subscriptions.len() && subscriptions[i] == s;
                assert(after[i] == s);
            }
        }
    }
}

/// Once the subscription of a session is removed, the session has none; those of other sessions stay.
pub proof fn removed_subscription_is_gone(
    subscriptions: Seq<Subscription>,
    session_id: u64,
    other: u64,
)
    requires
        distinct_sessions(subscriptions),
        other != session_id,
    ensures
        ({
            let after = without_session(subscriptions, session_id);
            &&& distinct_sessions(after)
            &&& !has_session(after, session_id)
            &&& forall|s: Subscription|
                s.session_id == other ==> (#[trigger] after.contains(s) <==> subscriptions.contains(
                    s,
                ))
        }),
{
    let after = without_session(subscriptions, session_id);
    if has_session(subscriptions, session_id) {
        let r = session_index(subscriptions, session_id);
        assert(0 <= r < subscriptions.len() && subscriptions[r].session_id == session_id);
        assert forall|i: int| 0 <= i < after.len() implies #[trigger] after[i] == subscriptions[if i
            < r {
            i
        } else {
            i + 1
        }] by {}
        assert forall|s: Subscription| s.session_id == other implies (#[trigger] after.contains(s)
            <==> subscriptions.contains(s)) by {
            if subscriptions.contains(s) {
                let i = choose|i: int| 0 <= i < subscriptions.len() && subscriptions[i] == s;
                assert(after[if i < r {
                    i
                } else {
                    i - 1
                }] == s);
            }
        }
    }
}

/// A track that is new has been played nothing of, and has the one subscription. A track that is cleared
/// keeps what has been played, and has no subscription.
pub proof fn tracks_start_empty_and_are_cleared_of_subscriptions(
    subscription: Subscription,
    playout: PlayoutView,
)
    ensures
        PlayoutView::fresh(subscription).last_object is None,
        PlayoutView::fresh(subscription).locations == Set::<SubscribePair>::empty(),
        PlayoutView::fresh(subscription).n_unique == 0,
        PlayoutView::fresh(subscription).max_object_size == 0,
        PlayoutView::fresh(subscription).interarrival_times.len() == 0,
        PlayoutView::fresh(subscription).window_length == 10,
        PlayoutView::fresh(subscription).max_object_per_group == 1,
        PlayoutView::fresh(subscription).subscriptions == seq![subscription],
        cleared(playout).subscriptions.len() == 0,
        cleared(playout).last_object == playout.last_object,
        cleared(playout).locations == playout.locations,
        cleared(playout).n_unique == playout.n_unique,
        cleared(playout).max_object_size == playout.max_object_size,
        cleared(playout).interarrival_times == playout.interarrival_times,
        cleared(playout).window_length == playout.window_length,
        cleared(playout).max_object_per_group == playout.max_object_per_group,
{
}

/// Tracks are told apart by the path of their namespace and their name behind a colon.
pub proof fn tracks_are_told_apart_by_namespace_and_name(track: Track)
    ensures
        track_key(track) == path_text(track.namespace@) + ":"@ + track.name@,
{
}

/// What is done to one track leaves every other one as it is.
pub proof fn other_tracks_stay_as_they_are(
    tracks: Map<Seq<char>, PlayoutView>,
    key: Seq<char>,
    other: Seq<char>,
    a: Arrival,
    subscription: Subscription,
    session_id: u64,
)
    requires
        key != other,
    ensures
        written(tracks, key, a).contains_key(other) <==> tracks.contains_key(other),
        subscribed(tracks, key, subscription).contains_key(other) <==> tracks.contains_key(other),
        unsubscribed(tracks, key, session_id).contains_key(other) <==> tracks.contains_key(other),
        tracks.contains_key(other) ==> written(tracks, key, a)[other] == tracks[other],
        tracks.contains_key(other) ==> subscribed(tracks, key, subscription)[other]
            == tracks[other],
        tracks.contains_key(other) ==> unsubscribed(tracks, key, session_id)[other]
            == tracks[other],
{
}

/// A subscription to a track that is not known yet starts the track with it alone. One to a known track,
/// and the end of one, change nothing of what has been played and counted. The end of a subscription to
/// a track that is not known changes nothing at all.
pub proof fn subscribing_changes_only_subscriptions(
    tracks: Map<Seq<char>, PlayoutView>,
    key: Seq<char>,
    subscription: Subscription,
    session_id: u64,
)
    ensures
        subscribed(tracks, key, subscription).contains_key(key),
        !tracks.contains_key(key) ==> {
            let started = subscribed(tracks, key, subscription)[key];
            &&& started.last_object is None
            &&& started.n_unique == 0
            &&& started.interarrival_times.len() == 0
            &&& started.window_length == 10
            &&& started.max_object_per_group == 1
            &&& started.subscriptions == seq![subscription]
            &&& unsubscribed(tracks, key, session_id) == tracks
        },
        tracks.contains_key(key) ==> {
            let before = tracks[key];
            let added = subscribed(tracks, key, subscription)[key];
            let removed = unsubscribed(tracks, key, session_id)[key];
            &&& unsubscribed(tracks, key, session_id).contains_key(key)
            &&& added == (PlayoutView { subscriptions: added.subscriptions, ..before })
            &&& removed == (PlayoutView { subscriptions: removed.subscriptions, ..before })
            &&& added.subscriptions.contains(subscription)
            &&& forall|i: int|
                0 <= i < before.subscriptions.len() && (
                #[trigger] before.subscriptions[i]).session_id != subscription.session_id
                    ==> added.subscriptions.contains(before.subscriptions[i])
        },
{
    if tracks.contains_key(key) {
        let before = tracks[key].subscriptions;
        let added = subscribed(tracks, key, subscription)[key].subscriptions;
        if has_session(before, subscription.session_id) {
            let at = session_index(before, subscription.session_id);
            assert(0 <= at < before.len() && before[at].session_id == subscription.session_id);
            assert(added[at] == subscription);
            assert forall|i: int|
                0 <= i < before.len() && (#[trigger] before[i]).session_id
                    != subscription.session_id implies added.contains(before[i]) by {
                assert(added[i] == before[i]);
            }
        } else {
            assert(added[before.len() as int] == subscription);
            assert forall|i: int| 0 <= i < before.len() implies added.contains(
                #[trigger] before[i],
            ) by {
                assert(added[i] == before[i]);
            }
        }
    }
}

/// Clearing keeps each track with what has been played and counted of it, and leaves it without
/// subscriptions.
pub proof fn clearing_keeps_what_was_played(tracks: Map<Seq<char>, PlayoutView>, key: Seq<char>)
    ensures
        all_cleared(tracks).contains_key(key) <==> tracks.contains_key(key),
        tracks.contains_key(key) ==> all_cleared(tracks)[key] == (PlayoutView {
            subscriptions: Seq::empty(),
            ..tracks[key]
        }),
{
}

} // verus!
