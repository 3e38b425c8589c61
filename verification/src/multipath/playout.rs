//! What has been played of each track, and who still has to be told.
use super::locations::Locations;
use super::skip::adapt;
use super::skip::adaptive_mode;
use super::skip::Estimate;
use super::skip::FailoverMethod;
use super::skip::SkipMode;
use super::window::ascending;
use super::window::window_insert;
use super::window::SlidingWindow;
use super::window::MIN_LEN;
use crate::coding::tuple::path_text;
use crate::message::subscribe::SubscribePair;
use crate::message::subscribe_update::update_range;
use crate::message::subscribe_update::SubscribeUpdateView;
use crate::serve::Track;
use crate::session::subscribe::update_filter;
use crate::session::subscribe::SubscribeFilter;
use crate::session::subscribed::may_become;
use crate::table::has_key;
use crate::table::key_index;
use crate::table::Table;
use vstd::prelude::*;

verus! {

/// How many interarrival times are kept of a track.
pub const WINDOW_LENGTH: usize = 10;

/// The priority of an update.
pub const UPDATE_PRIORITY: u8 = 127;

/// A point in time: seconds since the epoch, and nanoseconds since then.
#[derive(Clone, Copy, Debug, PartialEq, Eq, Structural)]
pub struct Timestamp {
    pub secs: i64,
    pub nanos: u32,
}

impl Timestamp {
    /// Nanoseconds since the epoch.
    pub open spec fn total(self) -> int {
        self.secs * 1_000_000_000 + self.nanos
    }

    /// How many nanoseconds a point in time lies behind an earlier one.
    pub fn since(&self, earlier: Timestamp) -> (res: i128)
        ensures
            res == self.total() - earlier.total(),
    {
        let secs: i128 = self.secs as i128 - earlier.secs as i128;
        let nanos: i128 = self.nanos as i128 - earlier.nanos as i128;
        secs * 1_000_000_000 + nanos
    }
}

/// How a subscriber wants to be kept up to date.
#[derive(Clone, Copy, Debug, PartialEq, Eq, Structural)]
pub struct SubscriberParams {
    pub failover_method: FailoverMethod,
    pub bandwidth_hint: u64,
}

/// A subscription to a track over one of the paths.
///
/// "A subscriber MUST NOT make multiple active subscriptions for a track within a single session
/// [...]", so a session identifies the subscription to a given track.
#[derive(Clone, Copy, Debug, PartialEq, Eq, Structural)]
pub struct Subscription {
    /// The number that the application gave the session.
    pub session_id: u64,
    /// Subscribe ID used between the subscriber and a relay
    pub subscribe_id: u64,
    /// Failover method to be used for this subscription.
    pub failover_method: FailoverMethod,
    /// Bandwidth hint provided as an external parameter to facilitate the estimation of signaling time.
    pub bandwidth_hint: u64,
    /// The location specified in the most recent subscription update, if any.
    pub last_update: Option<SubscribePair>,
    /// The number of duplicate objects received from this subscription.
    pub n_duplicate: u64,
}

/// What has been played of a track.
#[derive(Debug)]
pub struct TrackPlayoutStatus {
    /// The location and the timestamp of the most recently played object, if any.
    pub last_object: Option<(SubscribePair, Timestamp)>,
    /// The locations of the objects received.
    pub locations: Locations,
    /// The total number of distinct objects received.
    pub n_unique: u64,
    /// Maximum of the object size observed in the subscription.
    pub max_object_size: u64,
    /// The object interarrival times observed in the subscription, in nanoseconds.
    pub interarrival_times: SlidingWindow<i128>,
    /// Maximum of the number of objects per group observed in the subscription.
    pub max_object_per_group: u64,
    /// At most one for each session.
    pub subscriptions: Vec<Subscription>,
}

/// What a `TrackPlayoutStatus` says.
#[verifier::ext_equal]
pub struct PlayoutView {
    pub last_object: Option<(SubscribePair, Timestamp)>,
    pub locations: Set<SubscribePair>,
    pub n_unique: u64,
    pub max_object_size: u64,
    pub interarrival_times: Seq<i128>,
    pub window_length: usize,
    pub max_object_per_group: u64,
    pub subscriptions: Seq<Subscription>,
}

impl View for TrackPlayoutStatus {
    type V = PlayoutView;

    open spec fn view(&self) -> PlayoutView {
        PlayoutView {
            last_object: self.last_object,
            locations: self.locations@,
            n_unique: self.n_unique,
            max_object_size: self.max_object_size,
            interarrival_times: self.interarrival_times.values@,
            window_length: self.interarrival_times.max_length,
            max_object_per_group: self.max_object_per_group,
            subscriptions: self.subscriptions@,
        }
    }
}

/// Whether a session is among those of the subscriptions.
pub open spec fn has_session(subscriptions: Seq<Subscription>, session_id: u64) -> bool {
    exists|i: int|
        0 <= i < subscriptions.len() && (#[trigger] subscriptions[i]).session_id == session_id
}

/// Where a session is among those of the subscriptions.
pub open spec fn session_index(subscriptions: Seq<Subscription>, session_id: u64) -> int {
    choose|i: int|
        0 <= i < subscriptions.len() && (#[trigger] subscriptions[i]).session_id == session_id
}

/// Whether no session is there twice.
pub open spec fn distinct_sessions(subscriptions: Seq<Subscription>) -> bool {
    forall|i: int, j: int|
        0 <= i < j < subscriptions.len() ==> (#[trigger] subscriptions[i]).session_id != (
        #[trigger] subscriptions[j]).session_id
}

impl PlayoutView {
    /// Whether no session is there twice, the interarrival times are no more than are kept, the
    /// distinct objects are counted, none of them lies beyond the objects of a group, and the one that
    /// was played last is the last of them.
    pub open spec fn wf(self) -> bool {
        &&& self.locations.finite()
        &&& self.n_unique == self.locations.len()
        &&& forall|location: SubscribePair| #[trigger]
            self.locations.contains(location) ==> location.object < self.max_object_per_group
        &&& match self.last_object {
            Some(last) => {
                &&& self.locations.contains(last.0)
                &&& forall|location: SubscribePair| #[trigger]
                    self.locations.contains(location) ==> location.up_to(last.0)
            },
            None => self.locations == Set::<SubscribePair>::empty(),
        }
        &&& distinct_sessions(self.subscriptions)
        &&& self.interarrival_times.len() <= self.window_length
        &&& self.window_length == WINDOW_LENGTH
    }

    /// The track before anything has come of it, with one subscription.
    pub open spec fn fresh(subscription: Subscription) -> PlayoutView {
        PlayoutView {
            last_object: None,
            locations: Set::empty(),
            n_unique: 0,
            max_object_size: 0,
            interarrival_times: Seq::empty(),
            window_length: WINDOW_LENGTH,
            max_object_per_group: 1,
            subscriptions: seq![subscription],
        }
    }

    /// Whether an object at a location is played: those up to the last one that was played are not.
    pub open spec fn plays(self, current: SubscribePair) -> bool {
        self.last_object matches Some(last) ==> last.0.before(current)
    }

    /// Whether what is counted can still be counted when an object comes.
    pub open spec fn can_count(self, sender_session_id: u64, current: SubscribePair) -> bool {
        &&& current.object < u64::MAX
        &&& if self.locations.contains(current) {
            self.subscriptions[session_index(self.subscriptions, sender_session_id)].n_duplicate
                < u64::MAX
        } else {
            self.n_unique < u64::MAX
        }
    }

    /// The track once an object has come from a session.
    pub open spec fn received(
        self,
        sender_session_id: u64,
        current: SubscribePair,
        size: u64,
        now: Timestamp,
    ) -> PlayoutView {
        let duplicate = self.locations.contains(current);
        let sender = session_index(self.subscriptions, sender_session_id);
        PlayoutView {
            last_object: if self.plays(current) {
                Some((current, now))
            } else {
                self.last_object
            },
            locations: self.locations.insert(current),
            n_unique: if duplicate {
                self.n_unique
            } else {
                (self.n_unique + 1) as u64
            },
            max_object_size: if size > self.max_object_size {
                size
            } else {
                self.max_object_size
            },
            interarrival_times: match self.last_object {
                Some(last) if self.plays(current) => window_insert(
                    self.interarrival_times,
                    self.window_length as nat,
                    (now.total() - last.1.total()) as i128,
                ),
                _ => self.interarrival_times,
            },
            window_length: self.window_length,
            max_object_per_group: if current.object + 1 > self.max_object_per_group {
                (current.object + 1) as u64
            } else {
                self.max_object_per_group
            },
            subscriptions: if duplicate {
                self.subscriptions.update(
                    sender,
                    Subscription {
                        n_duplicate: (self.subscriptions[sender].n_duplicate + 1) as u64,
                        ..self.subscriptions[sender]
                    },
                )
            } else {
                self.subscriptions
            },
        }
    }
}

/// The index of a session is that of the one subscription with the session.
proof fn lemma_session(subscriptions: Seq<Subscription>, i: int)
    requires
        distinct_sessions(subscriptions),
        0 <= i < subscriptions.len(),
    ensures
        has_session(subscriptions, subscriptions[i].session_id),
        session_index(subscriptions, subscriptions[i].session_id) == i,
{
    let session_id = subscriptions[i].session_id;
    assert(has_session(subscriptions, session_id));
    let j = session_index(subscriptions, session_id);
    assert(0 <= j < subscriptions.len() && subscriptions[j].session_id == session_id);
}

impl TrackPlayoutStatus {
    /// Whether what is known of the track is consistent.
    pub open spec fn wf(&self) -> bool {
        &&& self@.wf()
        &&& self.locations.wf()
    }

    /// Where a session is among those of the subscriptions.
    pub fn find(&self, session_id: u64) -> (res: Option<usize>)
        requires
            self@.wf(),
        ensures
            match res {
                Some(i) => {
                    &&& i < self@.subscriptions.len()
                    &&& has_session(self@.subscriptions, session_id)
                    &&& i == session_index(self@.subscriptions, session_id)
                    &&& self@.subscriptions[i as int].session_id == session_id
                },
                None => !has_session(self@.subscriptions, session_id),
            },
    {
        let mut i: usize = 0;
        while i < self.subscriptions.len()
            invariant
                self@.wf(),
                i <= self.subscriptions@.len(),
                forall|j: int|
                    0 <= j < i ==> (#[trigger] self.subscriptions@[j]).session_id != session_id,
            decreases self.subscriptions@.len() - i,
        {
            if self.subscriptions[i].session_id == session_id {
                proof {
                    lemma_session(self.subscriptions@, i as int);
                }
                return Some(i);
            }
            i = i + 1;
        }
        None
    }

    /// Takes note of an object that has come from a session. Gives whether it is to be played.
    pub fn receive(
        &mut self,
        sender_session_id: u64,
        current: SubscribePair,
        size: u64,
        now: Timestamp,
    ) -> (res: bool)
        requires
            old(self).wf(),
            has_session(old(self)@.subscriptions, sender_session_id),
            old(self)@.can_count(sender_session_id, current),
        ensures
            res == old(self)@.plays(current),
            final(self)@ == old(self)@.received(sender_session_id, current, size, now),
            final(self).wf(),
    {
        if size > self.max_object_size {
            self.max_object_size = size;
        }
        if current.object + 1 > self.max_object_per_group {
            self.max_object_per_group = current.object + 1;
        }
        let sender: Option<usize> = self.find(sender_session_id);
        if self.locations.insert(current) {
            self.n_unique = self.n_unique + 1;
        } else if let Some(i) = sender {
            let mut subscription: Subscription = self.subscriptions[i];
            subscription.n_duplicate = subscription.n_duplicate + 1;
            self.subscriptions.set(i, subscription);
        }
        if let Some((last, last_time)) = self.last_object {
            if current <= last {
                // A later object has been played already
                assert(self@ =~= old(self)@.received(sender_session_id, current, size, now));
                return false;
            }
            self.interarrival_times.insert(now.since(last_time));
        }
        self.last_object = Some((current, now));
        assert(self@ =~= old(self)@.received(sender_session_id, current, size, now));
        true
    }
}

/// What an estimate for the adaptive failover method is made from.
#[derive(Clone, Copy, Debug, PartialEq, Eq, Structural)]
pub struct Observation {
    pub max_object_size: u64,
    /// The bandwidth hint for the session that an object came from.
    pub sender_bandwidth: u64,
    /// The 95th percentile of the interarrival times, in nanoseconds.
    pub interarrival_time: i128,
    pub max_object_per_group: u64,
}

impl PlayoutView {
    /// What has been observed when an object has come from a session, if it is enough to conclude
    /// anything from.
    pub open spec fn observation(self, sender_session_id: u64) -> Option<Observation> {
        if self.interarrival_times.len() > MIN_LEN {
            Some(
                Observation {
                    max_object_size: self.max_object_size,
                    sender_bandwidth: self.subscriptions[session_index(
                        self.subscriptions,
                        sender_session_id,
                    )].bandwidth_hint,
                    interarrival_time: ascending(self.interarrival_times)[95
                        * self.interarrival_times.len() as int / 100],
                    max_object_per_group: self.max_object_per_group,
                },
            )
        } else {
            None
        }
    }
}

impl TrackPlayoutStatus {
    /// What has been observed when an object has come from a session, if it is enough to conclude
    /// anything from.
    pub fn observe(&self, sender_session_id: u64) -> (res: Option<Observation>)
        requires
            self@.wf(),
            has_session(self@.subscriptions, sender_session_id),
        ensures
            res == self@.observation(sender_session_id),
    {
        if !self.interarrival_times.enough() {
            return None;
        }
        match (self.find(sender_session_id), self.interarrival_times.p95()) {
            (Some(i), Some(interarrival_time)) => Some(
                Observation {
                    max_object_size: self.max_object_size,
                    sender_bandwidth: self.subscriptions[i].bandwidth_hint,
                    interarrival_time,
                    max_object_per_group: self.max_object_per_group,
                },
            ),
            _ => None,
        }
    }
}

/// An update that a path is to be sent.
#[derive(Clone, Copy, Debug, PartialEq, Eq, Structural)]
pub struct UpdateRequest {
    pub session_id: u64,
    pub subscribe_id: u64,
    pub filter: SubscribeFilter,
    pub non_preemptive_filtering: bool,
    pub subscriber_priority: u8,
}

/// What becomes of a subscription when an object has been played.
#[derive(Clone, Copy, Debug, PartialEq, Eq, Structural)]
pub enum Skip {
    /// It is not updated.
    Hold,
    /// It is told to go on at a location.
    Update(SubscribePair),
}

impl Subscription {
    /// What becomes of the subscription when an object from another session, the sender, has been
    /// played. It is not updated where it does not skip or there is too little to choose its skip
    /// mode by. Nor is it before the playing has come to where the sender itself was told to
    /// go on, and it is never told to go back.
    pub open spec fn skip(
        self,
        mode: Option<SkipMode>,
        sender_last_update: Option<SubscribePair>,
        current: SubscribePair,
    ) -> Skip {
        match mode {
            None => Skip::Hold,
            Some(mode) => match mode.target(current) {
                None => Skip::Hold,
                Some(next) => if sender_last_update matches Some(last) && current.before(last) {
                    Skip::Hold
                } else if self.last_update matches Some(last) && next.before(last) {
                    Skip::Hold
                } else {
                    Skip::Update(next)
                },
            },
        }
    }

    /// What becomes of the subscription when an object from another session has been played.
    fn decide(
        &self,
        mode: Option<SkipMode>,
        sender_last_update: Option<SubscribePair>,
        current: SubscribePair,
    ) -> (res: Skip)
        requires
            mode matches Some(mode) ==> mode.fits(current),
        ensures
            res == self.skip(mode, sender_last_update, current),
    {
        let next: Option<SubscribePair> = match mode {
            Some(mode) => mode.skip_target(current),
            None => None,
        };
        let next: SubscribePair = match next {
            Some(next) => next,
            None => return Skip::Hold,
        };
        if let Some(last_target) = sender_last_update {
            // Don't update the session if the playout has not surpassed
            // the prior update target yet.
            if current < last_target {
                return Skip::Hold;
            }
        }
        if let Some(last_target) = self.last_update {
            // The start location in the filter must not decrease.
            if next < last_target {
                return Skip::Hold;
            }
        }
        Skip::Update(next)
    }
}

impl PlayoutView {
    /// The skip mode of a subscription, if there is enough to choose it by.
    pub open spec fn mode(self, i: int, estimates: Seq<Estimate>) -> Option<SkipMode> {
        match self.subscriptions[i].failover_method {
            FailoverMethod::Static(mode) => Some(mode),
            FailoverMethod::DynamicAdaptive => if self.interarrival_times.len() > MIN_LEN {
                Some(adaptive_mode(estimates[i], self.max_object_per_group))
            } else {
                None
            },
        }
    }

    /// What becomes of a subscription when an object from a session has been played.
    pub open spec fn skip(
        self,
        i: int,
        sender_session_id: u64,
        current: SubscribePair,
        estimates: Seq<Estimate>,
    ) -> Skip {
        let sender = self.subscriptions[session_index(self.subscriptions, sender_session_id)];
        if self.subscriptions[i].session_id == sender_session_id {
            Skip::Hold
        } else {
            self.subscriptions[i].skip(self.mode(i, estimates), sender.last_update, current)
        }
    }

    /// Where a subscription is told to go on, if it is told at all.
    pub open spec fn update(
        self,
        i: int,
        sender_session_id: u64,
        current: SubscribePair,
        estimates: Seq<Estimate>,
    ) -> Option<SubscribePair> {
        match self.skip(i, sender_session_id, current, estimates) {
            Skip::Update(next) => Some(next),
            Skip::Hold => None,
        }
    }

    /// Whether every location that is worked out can be named.
    pub open spec fn can_skip(
        self,
        sender_session_id: u64,
        current: SubscribePair,
        estimates: Seq<Estimate>,
    ) -> bool {
        forall|i: int|
            #![trigger self.mode(i, estimates)]
            0 <= i < self.subscriptions.len() && self.subscriptions[i].session_id
                != sender_session_id ==> (self.mode(i, estimates) matches Some(mode) ==> mode.fits(current))
    }

    /// The track once the paths have been told to skip ahead.
    pub open spec fn skipped(
        self,
        sender_session_id: u64,
        current: SubscribePair,
        estimates: Seq<Estimate>,
    ) -> PlayoutView {
        PlayoutView {
            subscriptions: Seq::new(
                self.subscriptions.len(),
                |i: int|
                    match self.update(i, sender_session_id, current, estimates) {
                        Some(next) => Subscription {
                            last_update: Some(next),
                            ..self.subscriptions[i]
                        },
                        None => self.subscriptions[i],
                    },
            ),
            ..self
        }
    }

    /// The updates for the first subscriptions, in their order.
    pub open spec fn requests(
        self,
        n: nat,
        sender_session_id: u64,
        current: SubscribePair,
        estimates: Seq<Estimate>,
        non_preemptive_filtering: bool,
    ) -> Seq<UpdateRequest>
        decreases n,
    {
        if n == 0 {
            Seq::empty()
        } else {
            let i = n - 1;
            let before = self.requests(
                (n - 1) as nat,
                sender_session_id,
                current,
                estimates,
                non_preemptive_filtering,
            );
            match self.update(i, sender_session_id, current, estimates) {
                Some(next) => before.push(
                    UpdateRequest {
                        session_id: self.subscriptions[i].session_id,
                        subscribe_id: self.subscriptions[i].subscribe_id,
                        filter: SubscribeFilter::AbsoluteStart(next),
                        non_preemptive_filtering,
                        subscriber_priority: UPDATE_PRIORITY,
                    },
                ),
                None => before,
            }
        }
    }
}

/// The track without its subscriptions.
pub open spec fn cleared(playout: PlayoutView) -> PlayoutView {
    PlayoutView { subscriptions: Seq::<Subscription>::empty(), ..playout }
}

impl TrackPlayoutStatus {
    /// Adds a subscription, in place of one in the same session.
    pub fn add(&mut self, subscription: Subscription)
        requires
            old(self).wf(),
        ensures
            final(self)@ == (PlayoutView {
                subscriptions: with_subscription(old(self)@.subscriptions, subscription),
                ..old(self)@
            }),
            final(self).wf(),
    {
        match self.find(subscription.session_id) {
            Some(i) => self.subscriptions.set(i, subscription),
            None => self.subscriptions.push(subscription),
        }
    }

    /// Removes the subscription in a session, if there is one.
    pub fn remove(&mut self, session_id: u64)
        requires
            old(self).wf(),
        ensures
            final(self)@ == (PlayoutView {
                subscriptions: without_session(old(self)@.subscriptions, session_id),
                ..old(self)@
            }),
            final(self).wf(),
    {
        if let Some(i) = self.find(session_id) {
            self.subscriptions.remove(i);
        }
    }

    /// The skip mode of a subscription, if there is enough to choose it by.
    fn choose_mode(&self, i: usize, estimates: &Vec<Estimate>) -> (res: Option<SkipMode>)
        requires
            i < self@.subscriptions.len() == estimates@.len(),
        ensures
            res == self@.mode(i as int, estimates@),
    {
        match self.subscriptions[i].failover_method {
            FailoverMethod::Static(mode) => Some(mode),
            FailoverMethod::DynamicAdaptive => if self.interarrival_times.enough() {
                Some(adapt(estimates[i], self.max_object_per_group))
            } else {
                None
            },
        }
    }

    /// Asks the relays from other sessions to skip ahead and not to send objects that have already
    /// been received or are about to be received shortly. There is an estimate for each
    /// subscription; those of subscriptions with a static failover method are not looked at.
    pub fn skip_ahead(
        &mut self,
        sender_session_id: u64,
        current: SubscribePair,
        estimates: &Vec<Estimate>,
        non_preemptive_filtering: bool,
    ) -> (res: Vec<UpdateRequest>)
        requires
            old(self).wf(),
            has_session(old(self)@.subscriptions, sender_session_id),
            estimates@.len() == old(self)@.subscriptions.len(),
            old(self)@.can_skip(sender_session_id, current, estimates@),
        ensures
            final(self)@ == old(self)@.skipped(sender_session_id, current, estimates@),
            final(self).wf(),
            res@ == old(self)@.requests(
                old(self)@.subscriptions.len(),
                sender_session_id,
                current,
                estimates@,
                non_preemptive_filtering,
            ),
    {
        let ghost before = self@;
        let sender_last_update: Option<SubscribePair> = match self.find(sender_session_id) {
            Some(i) => self.subscriptions[i].last_update,
            None => None,
        };
        let mut updates: Vec<UpdateRequest> = Vec::new();
        let mut i: usize = 0;
        while i < self.subscriptions.len()
            invariant
                before.wf(),
                self.locations == old(self).locations,
                has_session(before.subscriptions, sender_session_id),
                estimates@.len() == before.subscriptions.len(),
                before.can_skip(sender_session_id, current, estimates@),
                before == old(self)@,
                sender_last_update == before.subscriptions[session_index(
                    before.subscriptions,
                    sender_session_id,
                )].last_update,
                i <= self@.subscriptions.len() == before.subscriptions.len(),
                self@ == (PlayoutView { subscriptions: self@.subscriptions, ..before }),
                forall|j: int|
                    0 <= j < i ==> #[trigger] self@.subscriptions[j] == before.skipped(
                        sender_session_id,
                        current,
                        estimates@,
                    ).subscriptions[j],
                forall|j: int|
                    i <= j < before.subscriptions.len() ==> #[trigger] self@.subscriptions[j]
                        == before.subscriptions[j],
                updates@ == before.requests(
                    i as nat,
                    sender_session_id,
                    current,
                    estimates@,
                    non_preemptive_filtering,
                ),
            decreases self.subscriptions@.len() - i,
        {
            let mut subscription: Subscription = self.subscriptions[i];
            assert(subscription == before.subscriptions[i as int]);
            if subscription.session_id == sender_session_id {
                i = i + 1;
                continue;
            }
            let mode: Option<SkipMode> = self.choose_mode(i, estimates);
            assert(mode == before.mode(i as int, estimates@));
            match subscription.decide(mode, sender_last_update, current) {
                Skip::Hold => {},
                Skip::Update(next) => {
                    updates.push(
                        UpdateRequest {
                            session_id: subscription.session_id,
                            subscribe_id: subscription.subscribe_id,
                            filter: SubscribeFilter::AbsoluteStart(next),
                            non_preemptive_filtering,
                            subscriber_priority: UPDATE_PRIORITY,
                        },
                    );
                    subscription.last_update = Some(next);
                    self.subscriptions.set(i, subscription);
                },
            }
            i = i + 1;
        }
        assert(self@ =~= before.skipped(sender_session_id, current, estimates@));
        updates
    }
}

/// How several paths are used.
#[derive(Clone, Copy, Debug, PartialEq, Eq, Structural)]
pub struct MultipathOptions {
    pub non_preemptive_filtering: bool,
}

/// The text that tells tracks apart.
pub open spec fn track_key(track: Track) -> Seq<char> {
    path_text(track.namespace@) + ":"@ + track.name@
}

/// The text that tells tracks apart.
pub fn create_track_key(track: &Track) -> (res: String)
    ensures
        res@ == track_key(*track),
{
    track.namespace.to_utf8_path().concat(":").concat(track.name.as_str())
}

/// The subscriptions once one has been added: it takes the place of one in the same session.
pub open spec fn with_subscription(
    subscriptions: Seq<Subscription>,
    subscription: Subscription,
) -> Seq<Subscription> {
    if has_session(subscriptions, subscription.session_id) {
        subscriptions.update(session_index(subscriptions, subscription.session_id), subscription)
    } else {
        subscriptions.push(subscription)
    }
}

/// The subscriptions once that in a session has been removed.
pub open spec fn without_session(subscriptions: Seq<Subscription>, session_id: u64) -> Seq<
    Subscription,
> {
    if has_session(subscriptions, session_id) {
        subscriptions.remove(session_index(subscriptions, session_id))
    } else {
        subscriptions
    }
}

/// An object that has come.
pub struct Arrival {
    pub session_id: u64,
    pub location: SubscribePair,
    pub size: u64,
    pub now: Timestamp,
}

/// The tracks once an object of the track with a key has come from a session.
pub open spec fn written(
    tracks: Map<Seq<char>, PlayoutView>,
    key: Seq<char>,
    a: Arrival,
) -> Map<Seq<char>, PlayoutView> {
    tracks.insert(key, tracks[key].received(a.session_id, a.location, a.size, a.now))
}

/// The tracks once a subscription to the track with a key has been added.
pub open spec fn subscribed(
    tracks: Map<Seq<char>, PlayoutView>,
    key: Seq<char>,
    subscription: Subscription,
) -> Map<Seq<char>, PlayoutView> {
    tracks.insert(
        key,
        if tracks.contains_key(key) {
            PlayoutView {
                subscriptions: with_subscription(tracks[key].subscriptions, subscription),
                ..tracks[key]
            }
        } else {
            PlayoutView::fresh(subscription)
        },
    )
}

/// The tracks once the subscription to the track with a key over a session has been removed.
pub open spec fn unsubscribed(
    tracks: Map<Seq<char>, PlayoutView>,
    key: Seq<char>,
    session_id: u64,
) -> Map<Seq<char>, PlayoutView> {
    if tracks.contains_key(key) {
        tracks.insert(
            key,
            PlayoutView {
                subscriptions: without_session(tracks[key].subscriptions, session_id),
                ..tracks[key]
            },
        )
    } else {
        tracks
    }
}

/// The tracks once all subscriptions have been removed.
pub open spec fn all_cleared(tracks: Map<Seq<char>, PlayoutView>) -> Map<Seq<char>, PlayoutView> {
    tracks.map_values(|playout: PlayoutView| cleared(playout))
}

/// The playing of tracks that come over several paths at once: each object is played once, and the
/// other paths are told to skip what has been received.
#[derive(Debug)]
pub struct MultipathOut {
    /// For each unique track
    pub tracks: Table<TrackPlayoutStatus>,
    pub options: MultipathOptions,
}

impl View for MultipathOut {
    type V = Map<Seq<char>, PlayoutView>;

    open spec fn view(&self) -> Map<Seq<char>, PlayoutView> {
        self.tracks@
    }
}

impl MultipathOut {
    /// Whether no track is there twice, and what is known of each is consistent.
    pub open spec fn wf(&self) -> bool {
        &&& self.tracks.wf()
        &&& forall|i: int|
            0 <= i < self.tracks.entries@.len() ==> (#[trigger] self.tracks.entries@[i]).1.wf()
    }

    /// Nothing played yet.
    pub fn new(options: MultipathOptions) -> (res: MultipathOut)
        ensures
            res.wf(),
            res@ == Map::<Seq<char>, PlayoutView>::empty(),
            res.options == options,
    {
        MultipathOut { tracks: Table::new(), options }
    }

    /// The text that tells tracks apart.
    pub fn create_key(track: &Track) -> (res: String)
        ensures
            res@ == track_key(*track),
    {
        create_track_key(track)
    }

    /// Takes note of an object of a track that has come from a session. Gives whether it is to be
    /// played.
    pub fn write_object(
        &mut self,
        sender_session_id: u64,
        track: &Track,
        object: SubscribePair,
        size: u64,
        now: Timestamp,
    ) -> (res: bool)
        requires
            old(self).wf(),
            old(self)@.contains_key(track_key(*track)),
            has_session(old(self)@[track_key(*track)].subscriptions, sender_session_id),
            old(self)@[track_key(*track)].can_count(sender_session_id, object),
        ensures
            res == old(self)@[track_key(*track)].plays(object),
            final(self)@ == written(
                old(self)@,
                track_key(*track),
                (Arrival { session_id: sender_session_id, location: object, size, now }),
            ),
            final(self).options == old(self).options,
            final(self).wf(),
    {
        let key: String = Self::create_key(track);
        self.write_group_object(sender_session_id, key, object, size, now)
    }

    /// Takes note of an object of the track with a key that has come from a session. Gives whether
    /// it is to be played.
    pub fn write_group_object(
        &mut self,
        sender_session_id: u64,
        key: String,
        object: SubscribePair,
        size: u64,
        now: Timestamp,
    ) -> (res: bool)
        requires
            old(self).wf(),
            old(self)@.contains_key(key@),
            has_session(old(self)@[key@].subscriptions, sender_session_id),
            old(self)@[key@].can_count(sender_session_id, object),
        ensures
            res == old(self)@[key@].plays(object),
            final(self)@ == written(
                old(self)@,
                key@,
                (Arrival { session_id: sender_session_id, location: object, size, now }),
            ),
            final(self).options == old(self).options,
            final(self).wf(),
    {
        match self.tracks.find(&key) {
            Some(i) => {
                let playout: &mut TrackPlayoutStatus = self.tracks.value_mut(i);
                playout.receive(sender_session_id, object, size, now)
            },
            None => false,
        }
    }

    /// Asks the other sessions to skip ahead once an object of the track with a key has been
    /// played.
    pub fn skip_ahead(
        &mut self,
        sender_session_id: u64,
        key: &String,
        current: SubscribePair,
        estimates: &Vec<Estimate>,
    ) -> (res: Vec<UpdateRequest>)
        requires
            old(self).wf(),
            old(self)@.contains_key(key@),
            has_session(old(self)@[key@].subscriptions, sender_session_id),
            estimates@.len() == old(self)@[key@].subscriptions.len(),
            old(self)@[key@].can_skip(sender_session_id, current, estimates@),
        ensures
            final(self)@ == old(self)@.insert(
                key@,
                old(self)@[key@].skipped(sender_session_id, current, estimates@),
            ),
            final(self).options == old(self).options,
            final(self).wf(),
            forall|i: int|
                0 <= i < old(self)@[key@].subscriptions.len()
                    && old(self)@[key@].subscriptions[i].last_update is Some ==> {
                    &&& (#[trigger] final(self)@[key@].subscriptions[i]).last_update is Some
                    &&& old(self)@[key@].subscriptions[i].last_update->0.up_to(
                        final(self)@[key@].subscriptions[i].last_update->0,
                    )
                },
            res@ == old(self)@[key@].requests(
                old(self)@[key@].subscriptions.len(),
                sender_session_id,
                current,
                estimates@,
                old(self).options.non_preemptive_filtering,
            ),
    {
        let non_preemptive_filtering: bool = self.options.non_preemptive_filtering;
        match self.tracks.find(key) {
            Some(i) => {
                let playout: &mut TrackPlayoutStatus = self.tracks.value_mut(i);
                playout.skip_ahead(sender_session_id, current, estimates, non_preemptive_filtering)
            },
            None => Vec::new(),
        }
    }

    /// Adds a subscription to a track over a session, in place of an earlier one.
    pub fn add_subscriber(
        &mut self,
        key: String,
        session_id: u64,
        subscribe_id: u64,
        subscriber_params: SubscriberParams,
    )
        requires
            old(self).wf(),
        ensures
            final(self)@ == subscribed(
                old(self)@,
                key@,
                (Subscription {
                    session_id,
                    subscribe_id,
                    failover_method: subscriber_params.failover_method,
                    bandwidth_hint: subscriber_params.bandwidth_hint,
                    last_update: None,
                    n_duplicate: 0,
                }),
            ),
            final(self).options == old(self).options,
            final(self).wf(),
    {
        let subscription = Subscription {
            session_id,
            subscribe_id,
            failover_method: subscriber_params.failover_method,
            bandwidth_hint: subscriber_params.bandwidth_hint,
            last_update: None,
            n_duplicate: 0,
        };
        match self.tracks.find(&key) {
            Some(i) => {
                let playout: &mut TrackPlayoutStatus = self.tracks.value_mut(i);
                playout.add(subscription);
            },
            None => {
                let mut subscriptions: Vec<Subscription> = Vec::new();
                subscriptions.push(subscription);
                let playout = TrackPlayoutStatus {
                    last_object: None,
                    locations: Locations::new(),
                    n_unique: 0,
                    max_object_size: 0,
                    interarrival_times: SlidingWindow::new(WINDOW_LENGTH),
                    max_object_per_group: 1,
                    subscriptions,
                };
                assert(playout@ =~= PlayoutView::fresh(subscription));
                self.tracks.insert_new(key, playout);
            },
        }
    }

    /// Removes the subscription to a track over a session, if there is one.
    pub fn remove_subscriber(&mut self, key: String, session_id: u64)
        requires
            old(self).wf(),
        ensures
            final(self)@ == unsubscribed(old(self)@, key@, session_id),
            final(self).options == old(self).options,
            final(self).wf(),
    {
        if let Some(i) = self.tracks.find(&key) {
            let playout: &mut TrackPlayoutStatus = self.tracks.value_mut(i);
            playout.remove(session_id);
        }
    }

    /// Removes all subscriptions. What has been played stays known.
    pub fn clear_subscribers(&mut self)
        requires
            old(self).wf(),
        ensures
            final(self)@ == all_cleared(old(self)@),
            final(self).options == old(self).options,
            final(self).wf(),
    {
        let ghost before = self.tracks;
        let mut i: usize = 0;
        while i < self.tracks.entries.len()
            invariant
                before == old(self).tracks,
                old(self).wf(),
                self.tracks.wf(),
                self.options == old(self).options,
                i <= self.tracks.entries@.len() == before.entries@.len(),
                forall|j: int|
                    0 <= j < before.entries@.len() ==> (#[trigger] self.tracks.entries@[j]).1.wf(),
                forall|j: int|
                    0 <= j < before.entries@.len() ==> (#[trigger] self.tracks.entries@[j]).0
                        == before.entries@[j].0,
                forall|j: int|
                    0 <= j < i ==> (#[trigger] self.tracks.entries@[j]).1@ == cleared(
                        before.entries@[j].1@,
                    ),
                forall|j: int|
                    i <= j < before.entries@.len() ==> #[trigger] self.tracks.entries@[j]
                        == before.entries@[j],
            decreases self.tracks.entries@.len() - i,
        {
            let playout: &mut TrackPlayoutStatus = self.tracks.value_mut(i);
            playout.subscriptions.clear();
            i = i + 1;
        }
        proof {
            assert forall|key: Seq<char>| self@.contains_key(key) == old(self)@.contains_key(
                key,
            ) by {
                if has_key(self.tracks.entries@, key) {
                    let j = key_index(self.tracks.entries@, key);
                    assert(before.entries@[j].0@ == key);
                }
                if has_key(before.entries@, key) {
                    let j = key_index(before.entries@, key);
                    assert(self.tracks.entries@[j].0@ == key);
                }
            }
            assert forall|key: Seq<char>| self@.contains_key(key) implies #[trigger] self@[key]
                == cleared(old(self)@[key]) by {
                let j = key_index(self.tracks.entries@, key);
                assert(has_key(self.tracks.entries@, key));
                assert(self.tracks.entries@[j].0@ == key);
                assert(before.entries@[j].0@ == key);
                before.lemma_entry(j);
                self.tracks.lemma_entry(j);
            }
            assert(self@ =~= all_cleared(old(self)@));
        }
    }
}

/// The locations that are played only increase: an object is played where it lies behind the last
/// one, and once it has been played, nothing up to it is played any more.
pub proof fn played_locations_increase(
    playout: PlayoutView,
    sender_session_id: u64,
    current: SubscribePair,
    size: u64,
    now: Timestamp,
    later: SubscribePair,
)
    requires
        playout.plays(current),
    ensures
        playout.last_object matches Some(last) ==> last.0.before(current),
        playout.received(sender_session_id, current, size, now).plays(later) <==> current.before(
            later,
        ),
        playout.received(sender_session_id, current, size, now).plays(later) ==> playout.plays(
            later,
        ),
{
}

/// The track once objects have come, one after another.
pub open spec fn after_arrivals(playout: PlayoutView, arrivals: Seq<Arrival>) -> PlayoutView
    decreases arrivals.len(),
{
    if arrivals.len() == 0 {
        playout
    } else {
        let a = arrivals.last();
        after_arrivals(playout, arrivals.drop_last()).received(a.session_id, a.location, a.size, a.now)
    }
}

/// The locations of the objects that are played of those that have come, one after another.
pub open spec fn played(playout: PlayoutView, arrivals: Seq<Arrival>) -> Seq<SubscribePair>
    decreases arrivals.len(),
{
    if arrivals.len() == 0 {
        Seq::empty()
    } else {
        let before = played(playout, arrivals.drop_last());
        let location = arrivals.last().location;
        if after_arrivals(playout, arrivals.drop_last()).plays(location) {
            before.push(location)
        } else {
            before
        }
    }
}

/// Whatever comes from whichever session, no object is played twice, and none before an earlier one:
/// the locations that are played strictly increase, and each of them lies behind what had been
/// played at the start.
pub proof fn objects_are_played_once_and_in_order(playout: PlayoutView, arrivals: Seq<Arrival>)
    ensures
        forall|i: int, j: int|
            0 <= i < j < played(playout, arrivals).len() ==> (#[trigger] played(
                playout,
                arrivals,
            )[i]).before(#[trigger] played(playout, arrivals)[j]),
        forall|i: int|
            0 <= i < played(playout, arrivals).len() ==> playout.plays(
                #[trigger] played(playout, arrivals)[i],
            ),
        ({
            let last = after_arrivals(playout, arrivals).last_object;
            if played(playout, arrivals).len() == 0 {
                last == playout.last_object
            } else {
                last matches Some(last) && last.0 == played(playout, arrivals).last()
            }
        }),
    decreases arrivals.len(),
{
    if arrivals.len() > 0 {
        objects_are_played_once_and_in_order(playout, arrivals.drop_last());
        let before = played(playout, arrivals.drop_last());
        let location = arrivals.last().location;
        if after_arrivals(playout, arrivals.drop_last()).plays(location) && before.len() > 0 {
            assert forall|i: int| 0 <= i < before.len() implies (#[trigger] before[i]).before(
                location,
            ) by {
                assert(before.last().before(location));
                if i < before.len() - 1 {
                    assert(before[i].before(before[before.len() - 1]));
                }
            }
            assert(playout.plays(before[0]));
        }
    }
}

/// Every object that comes has been played by then, or an object behind it has.
pub proof fn nothing_is_missed(playout: PlayoutView, arrivals: Seq<Arrival>, i: int)
    requires
        0 <= i < arrivals.len(),
    ensures
        after_arrivals(playout, arrivals).last_object matches Some(last)
            && arrivals[i].location.up_to(last.0),
    decreases arrivals.len(),
{
    if i < arrivals.len() - 1 {
        nothing_is_missed(playout, arrivals.drop_last(), i);
    }
}

/// Something that is done to the tracks.
pub enum Operation {
    /// An object of the track with a key comes.
    Write(Seq<char>, Arrival),
    /// The other sessions are told to skip ahead of a location of the track with a key, from a session,
    /// with an estimate for each subscription.
    Skip(Seq<char>, u64, SubscribePair, Seq<Estimate>),
    /// A subscription to the track with a key is added.
    Add(Seq<char>, Subscription),
    /// The subscription to the track with a key over a session is removed.
    Remove(Seq<char>, u64),
    /// All subscriptions are removed.
    Clear,
}

/// The tracks once something has been done to them.
pub open spec fn after_operation(
    tracks: Map<Seq<char>, PlayoutView>,
    operation: Operation,
) -> Map<Seq<char>, PlayoutView> {
    match operation {
        Operation::Write(key, a) => written(tracks, key, a),
        Operation::Skip(key, session_id, current, estimates) => tracks.insert(
            key,
            tracks[key].skipped(session_id, current, estimates),
        ),
        Operation::Add(key, subscription) => subscribed(tracks, key, subscription),
        Operation::Remove(key, session_id) => unsubscribed(tracks, key, session_id),
        Operation::Clear => all_cleared(tracks),
    }
}

/// Whether something can be done to the tracks: objects come of tracks that are there and from
/// sessions with a subscription, and only then are others told to skip ahead.
pub open spec fn can_operate(
    tracks: Map<Seq<char>, PlayoutView>,
    operation: Operation,
) -> bool {
    match operation {
        Operation::Write(key, a) => tracks.contains_key(key) && has_session(
            tracks[key].subscriptions,
            a.session_id,
        ),
        Operation::Skip(key, session_id, _, _) => tracks.contains_key(key) && has_session(
            tracks[key].subscriptions,
            session_id,
        ),
        _ => true,
    }
}

/// The tracks once one thing after another has been done to them.
pub open spec fn after_operations(
    tracks: Map<Seq<char>, PlayoutView>,
    operations: Seq<Operation>,
) -> Map<Seq<char>, PlayoutView>
    decreases operations.len(),
{
    if operations.len() == 0 {
        tracks
    } else {
        after_operation(after_operations(tracks, operations.drop_last()), operations.last())
    }
}

/// Whether one thing after another can be done to the tracks.
pub open spec fn can_operate_all(
    tracks: Map<Seq<char>, PlayoutView>,
    operations: Seq<Operation>,
) -> bool
    decreases operations.len(),
{
    operations.len() == 0 || {
        &&& can_operate_all(tracks, operations.drop_last())
        &&& can_operate(after_operations(tracks, operations.drop_last()), operations.last())
    }
}

/// The locations of the track with a key that are played while one thing after another is done.
pub open spec fn played_through(
    tracks: Map<Seq<char>, PlayoutView>,
    key: Seq<char>,
    operations: Seq<Operation>,
) -> Seq<SubscribePair>
    decreases operations.len(),
{
    if operations.len() == 0 {
        Seq::empty()
    } else {
        let before = played_through(tracks, key, operations.drop_last());
        match operations.last() {
            Operation::Write(written_key, a) if written_key == key && after_operations(
                tracks,
                operations.drop_last(),
            )[key].plays(a.location) => before.push(a.location),
            _ => before,
        }
    }
}

/// What has been played of the track with a key, if anything.
pub open spec fn last_played(tracks: Map<Seq<char>, PlayoutView>, key: Seq<char>) -> Option<
    SubscribePair,
> {
    match tracks[key].last_object {
        Some(last) if tracks.contains_key(key) => Some(last.0),
        _ => None,
    }
}

/// Whatever objects come of whichever tracks and sessions, and however subscriptions are added,
/// removed, cleared and told to skip ahead in between, no object of a track is played twice, and none
/// before an earlier one: the locations that are played strictly increase, and each of them lies
/// behind what had been played at the start.
pub proof fn playing_stays_in_order(
    tracks: Map<Seq<char>, PlayoutView>,
    key: Seq<char>,
    operations: Seq<Operation>,
)
    requires
        can_operate_all(tracks, operations),
    ensures
        forall|i: int, j: int|
            0 <= i < j < played_through(tracks, key, operations).len() ==> (
            #[trigger] played_through(tracks, key, operations)[i]).before(
                #[trigger] played_through(tracks, key, operations)[j],
            ),
        forall|i: int|
            0 <= i < played_through(tracks, key, operations).len() ==> (last_played(
                tracks,
                key,
            ) matches Some(last) ==> last.before(
                #[trigger] played_through(tracks, key, operations)[i],
            )),
        last_played(after_operations(tracks, operations), key) == if played_through(
            tracks,
            key,
            operations,
        ).len() == 0 {
            last_played(tracks, key)
        } else {
            Some(played_through(tracks, key, operations).last())
        },
    decreases operations.len(),
{
    if operations.len() > 0 {
        let earlier = operations.drop_last();
        playing_stays_in_order(tracks, key, earlier);
        let before = played_through(tracks, key, earlier);
        let now = played_through(tracks, key, operations);
        if now.len() > before.len() {
            let location = now.last();
            assert forall|i: int| 0 <= i < before.len() implies (#[trigger] before[i]).before(
                location,
            ) by {
                assert(before.last().before(location));
                if i < before.len() - 1 {
                    assert(before[i].before(before[before.len() - 1]));
                }
            }
            if before.len() > 0 {
                assert(last_played(tracks, key) matches Some(last) ==> last.before(before[0]));
            }
        }
    }
}

/// An object that is not played leaves what has been played and what is played next as it was.
pub proof fn unplayed_objects_change_no_playing(
    playout: PlayoutView,
    sender_session_id: u64,
    current: SubscribePair,
    size: u64,
    now: Timestamp,
    later: SubscribePair,
)
    requires
        !playout.plays(current),
    ensures
        ({
            let after = playout.received(sender_session_id, current, size, now);
            &&& after.last_object == playout.last_object
            &&& after.interarrival_times == playout.interarrival_times
            &&& after.plays(later) == playout.plays(later)
        }),
{
}

/// Each object that comes is counted once: where its location is new it is one more distinct object,
/// and otherwise one more duplicate from the session it came from.
pub proof fn each_object_is_counted_once(
    playout: PlayoutView,
    sender_session_id: u64,
    current: SubscribePair,
    size: u64,
    now: Timestamp,
)
    requires
        playout.wf(),
        has_session(playout.subscriptions, sender_session_id),
        playout.can_count(sender_session_id, current),
    ensures
        ({
            let after = playout.received(sender_session_id, current, size, now);
            let i = session_index(playout.subscriptions, sender_session_id);
            &&& after.n_unique == after.locations.len()
            &&& after.locations.contains(current)
            &&& after.n_unique - playout.n_unique + (after.subscriptions[i].n_duplicate
                - playout.subscriptions[i].n_duplicate) == 1
            &&& after.n_unique == playout.n_unique <==> playout.locations.contains(current)
            &&& forall|j: int|
                0 <= j < playout.subscriptions.len() && j != i ==> #[trigger] after.subscriptions[j]
                    == playout.subscriptions[j]
        }),
{
    assert(0 <= session_index(playout.subscriptions, sender_session_id)
        < playout.subscriptions.len());
}

/// An object that is played is never a duplicate.
pub proof fn duplicates_are_not_played(playout: PlayoutView, current: SubscribePair)
    requires
        playout.wf(),
        playout.locations.contains(current),
    ensures
        !playout.plays(current),
{
}

/// The locations received are those that were there and those of the objects that have come, the
/// distinct ones among them are counted, and no group has been seen with more objects than the
/// maximum says.
pub proof fn arrivals_are_counted(playout: PlayoutView, arrivals: Seq<Arrival>)
    requires
        playout.wf(),
        playout.n_unique + arrivals.len() <= u64::MAX,
        forall|i: int|
            0 <= i < arrivals.len() ==> (#[trigger] arrivals[i]).location.object < u64::MAX,
    ensures
        ({
            let after = after_arrivals(playout, arrivals);
            &&& forall|location: SubscribePair| #[trigger]
                after.locations.contains(location) <==> playout.locations.contains(location) || (
                exists|i: int| 0 <= i < arrivals.len() && (#[trigger] arrivals[i]).location
                    == location)
            &&& after.locations.finite()
            &&& after.n_unique == after.locations.len()
            &&& after.n_unique <= playout.n_unique + arrivals.len()
            &&& playout.max_object_per_group <= after.max_object_per_group
            &&& forall|i: int|
                0 <= i < arrivals.len() ==> (#[trigger] arrivals[i]).location.object
                    < after.max_object_per_group
            &&& after.max_object_per_group == playout.max_object_per_group || exists|i: int|
                0 <= i < arrivals.len() && (#[trigger] arrivals[i]).location.object + 1
                    == after.max_object_per_group
        }),
    decreases arrivals.len(),
{
    if arrivals.len() > 0 {
        let n = arrivals.len() - 1;
        let earlier = arrivals.drop_last();
        assert forall|i: int| 0 <= i < earlier.len() implies (
        #[trigger] earlier[i]).location.object < u64::MAX by {
            assert(earlier[i] == arrivals[i]);
        }
        arrivals_are_counted(playout, earlier);
        let before = after_arrivals(playout, earlier);
        let after = after_arrivals(playout, arrivals);
        assert forall|location: SubscribePair| #[trigger]
            after.locations.contains(location) == (playout.locations.contains(location) || (
            exists|i: int| 0 <= i < arrivals.len() && (#[trigger] arrivals[i]).location
                == location)) by {
            if exists|i: int| 0 <= i < arrivals.len() && (#[trigger] arrivals[i]).location
                == location {
                let i = choose|i: int|
                    0 <= i < arrivals.len() && (#[trigger] arrivals[i]).location == location;
                if i < n {
                    assert(earlier[i].location == location);
                }
            }
            if before.locations.contains(location) && !playout.locations.contains(location) {
                let i = choose|i: int|
                    0 <= i < earlier.len() && (#[trigger] earlier[i]).location == location;
                assert(arrivals[i].location == location);
            }
            assert(arrivals[n].location == arrivals.last().location);
        }
        assert forall|i: int| 0 <= i < arrivals.len() implies (
        #[trigger] arrivals[i]).location.object < after.max_object_per_group by {
            if i < n {
                assert(earlier[i] == arrivals[i]);
            }
        }
        if after.max_object_per_group != playout.max_object_per_group {
            if after.max_object_per_group == before.max_object_per_group {
                let i = choose|i: int|
                    0 <= i < earlier.len() && (#[trigger] earlier[i]).location.object + 1
                        == before.max_object_per_group;
                assert(arrivals[i] == earlier[i]);
            } else {
                assert(arrivals[n].location.object + 1 == after.max_object_per_group);
            }
        }
    }
}

/// What a subscription is told depends on itself, on where the sender was told to go on, and on what
/// has been observed of the track, whatever other subscriptions there are.
pub proof fn other_subscriptions_do_not_matter(
    playout: PlayoutView,
    i: int,
    other: PlayoutView,
    j: int,
    sender_session_id: u64,
    current: SubscribePair,
    estimates: Seq<Estimate>,
    other_estimates: Seq<Estimate>,
)
    requires
        playout.subscriptions[i] == other.subscriptions[j],
        estimates[i] == other_estimates[j],
        playout.subscriptions[session_index(playout.subscriptions, sender_session_id)].last_update
            == other.subscriptions[session_index(
            other.subscriptions,
            sender_session_id,
        )].last_update,
        playout.interarrival_times == other.interarrival_times,
        playout.max_object_per_group == other.max_object_per_group,
    ensures
        playout.update(i, sender_session_id, current, estimates) == other.update(
            j,
            sender_session_id,
            current,
            other_estimates,
        ),
{
}

/// The session that an object came from is not told to skip ahead.
pub proof fn sender_is_not_updated(
    playout: PlayoutView,
    i: int,
    sender_session_id: u64,
    current: SubscribePair,
    estimates: Seq<Estimate>,
)
    requires
        playout.subscriptions[i].session_id == sender_session_id,
    ensures
        playout.update(i, sender_session_id, current, estimates) is None,
{
}

/// A session that is told where to go on is never told to go back.
pub proof fn start_never_goes_back(
    playout: PlayoutView,
    i: int,
    sender_session_id: u64,
    current: SubscribePair,
    estimates: Seq<Estimate>,
)
    requires
        0 <= i < playout.subscriptions.len(),
        playout.subscriptions[i].last_update is Some,
    ensures
        ({
            let after = playout.skipped(sender_session_id, current, estimates).subscriptions[i];
            &&& after.last_update is Some
            &&& playout.subscriptions[i].last_update->0.up_to(after.last_update->0)
            &&& playout.update(i, sender_session_id, current, estimates) matches Some(next)
                ==> after.last_update == Some(next)
        }),
{
}

/// Where the subscription over a session was told to go on last.
pub open spec fn last_told(playout: PlayoutView, session_id: u64) -> Option<SubscribePair> {
    playout.subscriptions[session_index(playout.subscriptions, session_id)].last_update
}

/// Whether something that is done leaves it at the same subscription to the track with a key over a
/// session.
pub open spec fn keeps_subscription(operation: Operation, key: Seq<char>, session_id: u64) -> bool {
    match operation {
        Operation::Add(added_key, subscription) => added_key != key || subscription.session_id
            != session_id,
        Operation::Remove(removed_key, removed) => removed_key != key || removed != session_id,
        Operation::Clear => false,
        _ => true,
    }
}

/// Where something that is done tells the subscription to the track with a key over a session to go
/// on, if it does.
pub open spec fn tells(
    tracks: Map<Seq<char>, PlayoutView>,
    operation: Operation,
    key: Seq<char>,
    session_id: u64,
) -> Option<SubscribePair> {
    match operation {
        Operation::Skip(skipped_key, sender, current, estimates) if skipped_key == key => {
            tracks[key].update(
                session_index(tracks[key].subscriptions, session_id),
                sender,
                current,
                estimates,
            )
        },
        _ => None,
    }
}

/// Where the subscription to the track with a key over a session is told to go on while one thing
/// after another is done: the starts of the filters that are sent over it.
pub open spec fn told_through(
    tracks: Map<Seq<char>, PlayoutView>,
    key: Seq<char>,
    session_id: u64,
    operations: Seq<Operation>,
) -> Seq<SubscribePair>
    decreases operations.len(),
{
    if operations.len() == 0 {
        Seq::empty()
    } else {
        let before = told_through(tracks, key, session_id, operations.drop_last());
        match tells(
            after_operations(tracks, operations.drop_last()),
            operations.last(),
            key,
            session_id,
        ) {
            Some(next) => before.push(next),
            None => before,
        }
    }
}

/// What is done to the tracks leaves the subscription over a session where it was told to go on, and
/// moves it only where it is told anew.
proof fn lemma_operation_keeps(
    tracks: Map<Seq<char>, PlayoutView>,
    operation: Operation,
    key: Seq<char>,
    session_id: u64,
)
    requires
        can_operate(tracks, operation),
        keeps_subscription(operation, key, session_id),
        tracks.contains_key(key),
        distinct_sessions(tracks[key].subscriptions),
        has_session(tracks[key].subscriptions, session_id),
    ensures
        after_operation(tracks, operation).contains_key(key),
        distinct_sessions(after_operation(tracks, operation)[key].subscriptions),
        has_session(after_operation(tracks, operation)[key].subscriptions, session_id),
        last_told(after_operation(tracks, operation)[key], session_id) == match tells(
            tracks,
            operation,
            key,
            session_id,
        ) {
            Some(next) => Some(next),
            None => last_told(tracks[key], session_id),
        },
        tells(tracks, operation, key, session_id) matches Some(next) ==> (last_told(
            tracks[key],
            session_id,
        ) matches Some(last) ==> last.up_to(next)),
{
    let before = tracks[key].subscriptions;
    let after = after_operation(tracks, operation)[key].subscriptions;
    let i = session_index(before, session_id);
    assert(0 <= i < before.len() && before[i].session_id == session_id);
    match operation {
        Operation::Remove(removed_key, removed) if removed_key == key && has_session(
            before,
            removed,
        ) => {
            let r = session_index(before, removed);
            assert(0 <= r < before.len() && before[r].session_id == removed);
            let k = if i < r {
                i
            } else {
                i - 1
            };
            assert(after[k] == before[i]);
            assert forall|a: int, b: int| 0 <= a < b < after.len() implies (
            #[trigger] after[a]).session_id != (#[trigger] after[b]).session_id by {
                let (x, y) = (
                    if a < r {
                        a
                    } else {
                        a + 1
                    },
                    if b < r {
                        b
                    } else {
                        b + 1
                    },
                );
                assert(after[a] == before[x] && after[b] == before[y]);
            }
            lemma_session(after, k);
        },
        Operation::Add(added_key, subscription) if added_key == key && !has_session(
            before,
            subscription.session_id,
        ) => {
            assert forall|a: int, b: int| 0 <= a < b < after.len() implies (
            #[trigger] after[a]).session_id != (#[trigger] after[b]).session_id by {
                assert(after[a] == before[a]);
                if b < before.len() {
                    assert(after[b] == before[b]);
                }
            }
            lemma_session(after, i);
        },
        _ => {
            match operation {
                Operation::Write(written_key, a) if written_key == key => {
                    let w = session_index(before, a.session_id);
                    assert(0 <= w < before.len() && before[w].session_id == a.session_id);
                },
                Operation::Add(added_key, subscription) if added_key == key => {
                    let w = session_index(before, subscription.session_id);
                    assert(0 <= w < before.len() && before[w].session_id
                        == subscription.session_id);
                },
                _ => {},
            }
            assert(after.len() == before.len());
            assert(forall|a: int|
                0 <= a < before.len() ==> (#[trigger] after[a]).session_id
                    == before[a].session_id);
            lemma_session(after, i);
        },
    }
}

/// The starts of the filters that are sent over one subscription never decrease, whatever is done to
/// the tracks in between, as long as it stays the same subscription.
pub proof fn starts_never_go_back(
    tracks: Map<Seq<char>, PlayoutView>,
    key: Seq<char>,
    session_id: u64,
    operations: Seq<Operation>,
)
    requires
        can_operate_all(tracks, operations),
        tracks.contains_key(key),
        distinct_sessions(tracks[key].subscriptions),
        has_session(tracks[key].subscriptions, session_id),
        forall|i: int|
            0 <= i < operations.len() ==> keeps_subscription(
                #[trigger] operations[i],
                key,
                session_id,
            ),
    ensures
        forall|i: int, j: int|
            0 <= i <= j < told_through(tracks, key, session_id, operations).len() ==> (
            #[trigger] told_through(tracks, key, session_id, operations)[i]).up_to(
                #[trigger] told_through(tracks, key, session_id, operations)[j],
            ),
        forall|i: int|
            0 <= i < told_through(tracks, key, session_id, operations).len() ==> (last_told(
                tracks[key],
                session_id,
            ) matches Some(last) ==> last.up_to(
                #[trigger] told_through(tracks, key, session_id, operations)[i],
            )),
        after_operations(tracks, operations).contains_key(key),
        distinct_sessions(after_operations(tracks, operations)[key].subscriptions),
        has_session(after_operations(tracks, operations)[key].subscriptions, session_id),
        last_told(after_operations(tracks, operations)[key], session_id) == if told_through(
            tracks,
            key,
            session_id,
            operations,
        ).len() == 0 {
            last_told(tracks[key], session_id)
        } else {
            Some(told_through(tracks, key, session_id, operations).last())
        },
    decreases operations.len(),
{
    if operations.len() > 0 {
        let earlier = operations.drop_last();
        assert forall|i: int| 0 <= i < earlier.len() implies keeps_subscription(
            #[trigger] earlier[i],
            key,
            session_id,
        ) by {
            assert(earlier[i] == operations[i]);
        }
        starts_never_go_back(tracks, key, session_id, earlier);
        assert(keeps_subscription(operations[operations.len() - 1], key, session_id));
        let middle = after_operations(tracks, earlier);
        lemma_operation_keeps(middle, operations.last(), key, session_id);
        let before = told_through(tracks, key, session_id, earlier);
        let told = told_through(tracks, key, session_id, operations);
        if told.len() > before.len() {
            let next = told.last();
            assert forall|i: int| 0 <= i < before.len() implies (#[trigger] before[i]).up_to(
                next,
            ) by {
                assert(before[i].up_to(before[before.len() - 1]));
            }
            if before.len() > 0 {
                assert(last_told(tracks[key], session_id) matches Some(last) ==> last.up_to(
                    before[0],
                ));
            }
        }
    }
}

/// The publisher accepts every update after the first: where the filter is the start that was asked
/// for last, the update narrows it.
pub proof fn later_updates_are_accepted(
    playout: PlayoutView,
    i: int,
    sender_session_id: u64,
    current: SubscribePair,
    estimates: Seq<Estimate>,
    message: SubscribeUpdateView,
    max_group_id: Option<u64>,
)
    requires
        playout.subscriptions[i].last_update is Some,
        playout.update(i, sender_session_id, current, estimates) is Some,
        (message.start, message.end_group) == update_range(
            SubscribeFilter::AbsoluteStart(
                playout.update(i, sender_session_id, current, estimates)->0,
            ),
        ),
    ensures
        may_become(
            SubscribeFilter::AbsoluteStart(playout.subscriptions[i].last_update->0),
            update_filter(message),
            max_group_id,
        ),
{
}

} // verus!
