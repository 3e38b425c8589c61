//! The playing of tracks that come over several sessions, with a fixed offset for the others.
use crate::message::subscribe::SubscribePair;
use crate::multipath::playout::create_track_key;
use crate::multipath::playout::track_key;
use crate::multipath::playout::UPDATE_PRIORITY;
use crate::serve::Track;
use crate::session::subscribe::SubscribeFilter;
use crate::table::Table;
use vstd::prelude::*;

verus! {

/// Where the other sessions are told to go on, from the object that has been played.
#[derive(Clone, Copy, Debug, PartialEq, Eq, Structural)]
pub enum UpdateBasis {
    /// So many objects later in the same group.
    SameGroupNextObject(u64),
    /// At the start of so many groups later.
    NextGroupFirstObject(u64),
}

impl UpdateBasis {
    /// Whether the location to go on at can be named.
    pub open spec fn fits(self, group_id: u64, object_id: u64) -> bool {
        match self {
            UpdateBasis::SameGroupNextObject(n) => object_id + n <= u64::MAX,
            UpdateBasis::NextGroupFirstObject(n) => group_id + n <= u64::MAX,
        }
    }

    /// Whether the location to go on at can be named.
    pub fn can_update(&self, group_id: u64, object_id: u64) -> (res: bool)
        ensures
            res == self.fits(group_id, object_id),
    {
        match self {
            UpdateBasis::SameGroupNextObject(n) => *n <= u64::MAX - object_id,
            UpdateBasis::NextGroupFirstObject(n) => *n <= u64::MAX - group_id,
        }
    }

    /// The location to go on at.
    pub open spec fn next(self, group_id: u64, object_id: u64) -> SubscribePair {
        match self {
            UpdateBasis::SameGroupNextObject(n) => SubscribePair {
                group: group_id,
                object: (object_id + n) as u64,
            },
            UpdateBasis::NextGroupFirstObject(n) => SubscribePair {
                group: (group_id + n) as u64,
                object: 0,
            },
        }
    }
}

/// An update that a session is to be sent.
#[derive(Clone, Copy, Debug, PartialEq, Eq, Structural)]
pub struct SessionUpdate {
    pub session_id: u64,
    pub subscribe_id: u64,
    pub filter: SubscribeFilter,
    pub subscriber_priority: u8,
}

/// What has been played of a track.
#[derive(Debug)]
pub struct TrackPlayoutStatus {
    /// The group and the object that were played last, if any.
    pub last_id: Option<(u64, u64)>,
    /// The session and the subscribe ID of each subscriber.
    pub subscribers: Vec<(u64, u64)>,
}

/// What a `TrackPlayoutStatus` says.
#[verifier::ext_equal]
pub struct PlayoutView {
    pub last_id: Option<(u64, u64)>,
    pub subscribers: Seq<(u64, u64)>,
}

impl View for TrackPlayoutStatus {
    type V = PlayoutView;

    open spec fn view(&self) -> PlayoutView {
        PlayoutView { last_id: self.last_id, subscribers: self.subscribers@ }
    }
}

/// Whether a group and an object come before others, groups first.
pub open spec fn id_before(a: (u64, u64), b: (u64, u64)) -> bool {
    a.0 < b.0 || (a.0 == b.0 && a.1 < b.1)
}

/// The updates for the first subscribers, in their order: all but those in the session of the
/// sender.
pub open spec fn updates_for(
    subscribers: Seq<(u64, u64)>,
    sender_session_id: u64,
    next: SubscribePair,
) -> Seq<SessionUpdate>
    decreases subscribers.len(),
{
    if subscribers.len() == 0 {
        Seq::empty()
    } else {
        let before = updates_for(subscribers.drop_last(), sender_session_id, next);
        let (session_id, subscribe_id) = subscribers.last();
        if session_id == sender_session_id {
            before
        } else {
            before.push(
                SessionUpdate {
                    session_id,
                    subscribe_id,
                    filter: SubscribeFilter::AbsoluteStart(next),
                    subscriber_priority: UPDATE_PRIORITY,
                },
            )
        }
    }
}

/// The playing of tracks that come over several sessions: each object is played once, and the other
/// sessions are told to go on behind it.
#[derive(Debug)]
pub struct SmartOut {
    /// For each unique track
    pub tracks: Table<TrackPlayoutStatus>,
    pub basis: UpdateBasis,
}

impl View for SmartOut {
    type V = Map<Seq<char>, PlayoutView>;

    open spec fn view(&self) -> Map<Seq<char>, PlayoutView> {
        self.tracks@
    }
}

/// Whether an object of the track with a key is to be played: those up to the last one that was
/// played are not.
pub open spec fn plays(
    tracks: Map<Seq<char>, PlayoutView>,
    key: Seq<char>,
    group_id: u64,
    object_id: u64,
) -> bool {
    tracks.contains_key(key) && tracks[key].last_id is Some ==> id_before(
        tracks[key].last_id->0,
        (group_id, object_id),
    )
}

impl SmartOut {
    /// Whether no track is there twice.
    pub open spec fn wf(&self) -> bool {
        self.tracks.wf()
    }

    /// Nothing played yet.
    pub fn new(basis: UpdateBasis) -> (res: SmartOut)
        ensures
            res.wf(),
            res@ == Map::<Seq<char>, PlayoutView>::empty(),
            res.basis == basis,
    {
        SmartOut { tracks: Table::new(), basis }
    }

    /// The text that tells tracks apart.
    pub fn create_key(track: &Track) -> (res: String)
        ensures
            res@ == track_key(*track),
    {
        create_track_key(track)
    }

    /// Whether an object of a track is to be played.
    pub fn write_object(&self, track: &Track, group_id: u64, object_id: u64) -> (res: bool)
        requires
            self.wf(),
        ensures
            res == plays(self@, track_key(*track), group_id, object_id),
    {
        let key: String = Self::create_key(track);
        self.write_group_object(key, group_id, object_id)
    }

    /// Whether an object of the track with a key is to be played.
    pub fn write_group_object(&self, key: String, group_id: u64, object_id: u64) -> (res: bool)
        requires
            self.wf(),
        ensures
            res == plays(self@, key@, group_id, object_id),
    {
        if let Some(playout) = self.tracks.get(&key) {
            if let Some((last_group, last_object)) = playout.last_id {
                if group_id < last_group || (group_id == last_group && object_id <= last_object) {
                    // Already seen this pair
                    return false;
                }
            }
        }
        true
    }

    /// An object of the track with a key has been played: takes note of it, and gives the updates
    /// for the other sessions.
    pub fn object_written(
        &mut self,
        sender_session_id: u64,
        key: String,
        group_id: u64,
        object_id: u64,
    ) -> (res: Vec<SessionUpdate>)
        requires
            old(self).wf(),
            old(self)@.contains_key(key@),
            old(self).basis.fits(group_id, object_id),
        ensures
            final(self)@ == old(self)@.insert(
                key@,
                PlayoutView { last_id: Some((group_id, object_id)), ..old(self)@[key@] },
            ),
            final(self).basis == old(self).basis,
            final(self).wf(),
            res@ == updates_for(
                old(self)@[key@].subscribers,
                sender_session_id,
                old(self).basis.next(group_id, object_id),
            ),
    {
        let next: SubscribePair = match self.basis {
            UpdateBasis::SameGroupNextObject(n) => {
                SubscribePair { group: group_id, object: object_id + n }
            },
            UpdateBasis::NextGroupFirstObject(n) => {
                SubscribePair { group: group_id + n, object: 0 }
            },
        };
        match self.tracks.find(&key) {
            Some(i) => {
                let playout: &mut TrackPlayoutStatus = self.tracks.value_mut(i);
                playout.last_id = Some((group_id, object_id));
                playout.updates(sender_session_id, next)
            },
            None => Vec::new(),
        }
    }

    /// Adds a subscriber of a track.
    pub fn add_subscriber(&mut self, key: String, session_id: u64, subscribe_id: u64)
        requires
            old(self).wf(),
        ensures
            final(self)@ == old(self)@.insert(
                key@,
                if old(self)@.contains_key(key@) {
                    PlayoutView {
                        subscribers: old(self)@[key@].subscribers.push((session_id, subscribe_id)),
                        ..old(self)@[key@]
                    }
                } else {
                    PlayoutView { last_id: None, subscribers: seq![(session_id, subscribe_id)] }
                },
            ),
            final(self).basis == old(self).basis,
            final(self).wf(),
    {
        match self.tracks.find(&key) {
            Some(i) => {
                let playout: &mut TrackPlayoutStatus = self.tracks.value_mut(i);
                playout.subscribers.push((session_id, subscribe_id));
            },
            None => {
                let mut subscribers: Vec<(u64, u64)> = Vec::new();
                subscribers.push((session_id, subscribe_id));
                let playout = TrackPlayoutStatus { last_id: None, subscribers };
                assert(playout@ =~= (PlayoutView {
                    last_id: None,
                    subscribers: seq![(session_id, subscribe_id)],
                }));
                self.tracks.insert_new(key, playout);
            },
        }
    }
}

impl TrackPlayoutStatus {
    /// The updates for the subscribers in other sessions than that of the sender.
    fn updates(&self, sender_session_id: u64, next: SubscribePair) -> (res: Vec<SessionUpdate>)
        ensures
            res@ == updates_for(self@.subscribers, sender_session_id, next),
    {
        let mut updates: Vec<SessionUpdate> = Vec::new();
        let mut i: usize = 0;
        while i < self.subscribers.len()
            invariant
                i <= self.subscribers@.len(),
                updates@ == updates_for(
                    self.subscribers@.take(i as int),
                    sender_session_id,
                    next,
                ),
            decreases self.subscribers@.len() - i,
        {
            let (session_id, subscribe_id): (u64, u64) = self.subscribers[i];
            assert(self.subscribers@.take(i + 1).drop_last() =~= self.subscribers@.take(i as int));
            if session_id != sender_session_id {
                updates.push(
                    SessionUpdate {
                        session_id,
                        subscribe_id,
                        filter: SubscribeFilter::AbsoluteStart(next),
                        subscriber_priority: UPDATE_PRIORITY,
                    },
                );
            }
            i = i + 1;
        }
        assert(self.subscribers@.take(i as int) =~= self.subscribers@);
        updates
    }
}

/// Once an object has been played, nothing up to it is played any more, and everything behind it is.
pub proof fn played_ids_increase(
    tracks: Map<Seq<char>, PlayoutView>,
    key: Seq<char>,
    played: (u64, u64),
    later: (u64, u64),
)
    requires
        tracks.contains_key(key),
    ensures
        plays(
            tracks.insert(key, PlayoutView { last_id: Some(played), ..tracks[key] }),
            key,
            later.0,
            later.1,
        ) <==> id_before(played, later),
{
}

/// No update goes to the session that the object came from.
pub proof fn sender_is_left_alone(
    subscribers: Seq<(u64, u64)>,
    sender_session_id: u64,
    next: SubscribePair,
)
    ensures
        forall|i: int|
            0 <= i < updates_for(subscribers, sender_session_id, next).len() ==> (
            #[trigger] updates_for(subscribers, sender_session_id, next)[i]).session_id
                != sender_session_id,
    decreases subscribers.len(),
{
    if subscribers.len() > 0 {
        sender_is_left_alone(subscribers.drop_last(), sender_session_id, next);
    }
}

/// An offset of at least one leads to a later location.
pub proof fn basis_leads_ahead(basis: UpdateBasis, group_id: u64, object_id: u64)
    requires
        basis.fits(group_id, object_id),
        basis matches UpdateBasis::SameGroupNextObject(n) ==> n > 0,
        basis matches UpdateBasis::NextGroupFirstObject(n) ==> n > 0,
    ensures
        (SubscribePair { group: group_id, object: object_id }).before(
            basis.next(group_id, object_id),
        ),
{
}

/// The order of playing goes by groups, and by objects within a group: once an object has been played,
/// another one is played exactly where its group is a later one, or the same with a later object.
/// Before anything has been played, everything is.
pub proof fn playing_goes_by_group_and_object(
    tracks: Map<Seq<char>, PlayoutView>,
    key: Seq<char>,
    last_group: u64,
    last_object: u64,
    group_id: u64,
    object_id: u64,
)
    ensures
        tracks.contains_key(key) && tracks[key].last_id == Some((last_group, last_object)) ==> (
        plays(tracks, key, group_id, object_id) <==> group_id > last_group || (group_id
            == last_group && object_id > last_object)),
        tracks.contains_key(key) && tracks[key].last_id is None ==> plays(
            tracks,
            key,
            group_id,
            object_id,
        ),
        !tracks.contains_key(key) ==> plays(tracks, key, group_id, object_id),
{
}

/// Objects are ordered like locations.
pub proof fn ids_are_ordered_like_locations(a: (u64, u64), b: (u64, u64))
    ensures
        id_before(a, b) <==> (SubscribePair { group: a.0, object: a.1 }).before(
            SubscribePair { group: b.0, object: b.1 },
        ),
{
}

/// The others go on so many objects later in the same group, or at the first object so many groups
/// later.
pub proof fn others_go_on_by_the_offset(n: u64, group_id: u64, object_id: u64)
    ensures
        UpdateBasis::SameGroupNextObject(n).fits(group_id, object_id) <==> object_id + n
            <= u64::MAX,
        UpdateBasis::NextGroupFirstObject(n).fits(group_id, object_id) <==> group_id + n
            <= u64::MAX,
        object_id + n <= u64::MAX ==> {
            let next = UpdateBasis::SameGroupNextObject(n).next(group_id, object_id);
            next.group == group_id && next.object == object_id + n
        },
        group_id + n <= u64::MAX ==> {
            let next = UpdateBasis::NextGroupFirstObject(n).next(group_id, object_id);
            next.group == group_id + n && next.object == 0
        },
{
}

/// Each subscriber in another session than the sender's gets one update, in the order of the
/// subscribers, under its own identity and with the start that is asked for; nobody else gets one.
pub proof fn every_other_subscriber_is_updated(
    subscribers: Seq<(u64, u64)>,
    sender_session_id: u64,
    next: SubscribePair,
)
    ensures
        ({
            let updates = updates_for(subscribers, sender_session_id, next);
            let told = subscribers.filter(|s: (u64, u64)| s.0 != sender_session_id);
            &&& updates.len() == told.len()
            &&& forall|i: int|
                0 <= i < updates.len() ==> {
                    &&& (#[trigger] updates[i]).session_id == told[i].0
                    &&& updates[i].subscribe_id == told[i].1
                    &&& updates[i].filter == SubscribeFilter::AbsoluteStart(next)
                    &&& updates[i].subscriber_priority == 127
                }
        }),
    decreases subscribers.len(),
{
    reveal(Seq::filter);
    if subscribers.len() > 0 {
        every_other_subscriber_is_updated(subscribers.drop_last(), sender_session_id, next);
    }
}

} // verus!
