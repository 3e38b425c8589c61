//! The subscribing side of a subscription.
use super::endpoint::Subscriber;
use crate::coding::params::ParamView;
use crate::coding::params::Params;
use crate::coding::tuple::Tuple;
use crate::data;
use crate::message::control::Message;
use crate::message::control::MessageView;
use crate::message::control::Unsubscribe;
use crate::message::subscribe;
use crate::message::subscribe::FilterType;
use crate::message::subscribe::GroupOrder;
use crate::message::subscribe::SubscribePair;
use crate::message::subscribe::SubscribeView;
use crate::message::subscribe_update::update_range;
use crate::message::subscribe_update::SubscribeUpdate;
use crate::message::subscribe_update::SubscribeUpdateView;
use crate::serve;
use crate::serve::ServeError;
use crate::serve::Track;
use crate::serve::TrackWriterMode;
use crate::watch::State;
use std::ops;
use vstd::prelude::*;

verus! {

/// What identifies a subscription and its track.
#[derive(Debug)]
pub struct SubscribeInfo {
    pub id: u64,
    pub namespace: Tuple,
    pub name: String,
    pub alias: u64,
}

/// What a `SubscribeInfo` says.
pub struct InfoView {
    pub id: u64,
    pub namespace: Seq<Seq<u8>>,
    pub name: Seq<char>,
    pub alias: u64,
}

impl View for SubscribeInfo {
    type V = InfoView;

    open spec fn view(&self) -> InfoView {
        InfoView {
            id: self.id,
            namespace: self.namespace@,
            name: self.name@,
            alias: self.alias,
        }
    }
}

impl Clone for SubscribeInfo {
    fn clone(&self) -> (res: SubscribeInfo)
        ensures
            res@ == self@,
    {
        SubscribeInfo {
            id: self.id,
            namespace: self.namespace.clone(),
            name: self.name.clone(),
            alias: self.alias,
        }
    }
}

/// How far a subscription has come.
#[derive(Debug)]
pub struct SubscribeState {
    /// Whether the publisher has accepted the subscription.
    pub ok: bool,
    /// Why the subscription ended, if it did.
    pub closed: Result<(), ServeError>,
}

impl Default for SubscribeState {
    fn default() -> (res: SubscribeState)
        ensures
            !res.ok,
            res.closed == Ok::<(), ServeError>(()),
    {
        SubscribeState { ok: false, closed: Ok(()) }
    }
}

/// Which part of a track is asked for.
#[derive(Clone, Copy, Debug, PartialEq, Eq, Structural)]
pub enum SubscribeFilter {
    /// From a location on.
    AbsoluteStart(SubscribePair),
    /// From a location up to the end of a group.
    AbsoluteRange(SubscribePair, u64),
    /// From the latest object on.
    LatestObject,
}

/// The filter that a subscription asks for.
pub open spec fn subscribe_filter(m: SubscribeView) -> SubscribeFilter {
    match m.filter_type {
        FilterType::AbsoluteStart => SubscribeFilter::AbsoluteStart(m.start->0),
        FilterType::AbsoluteRange => SubscribeFilter::AbsoluteRange(m.start->0, m.end_group->0),
        FilterType::LatestObject => SubscribeFilter::LatestObject,
    }
}

/// The filter that an update asks for.
pub open spec fn update_filter(m: SubscribeUpdateView) -> SubscribeFilter {
    if m.end_group != 0 {
        SubscribeFilter::AbsoluteRange(m.start, (m.end_group - 1) as u64)
    } else if m.start != (SubscribePair { group: 0, object: 0 }) {
        SubscribeFilter::AbsoluteStart(m.start)
    } else {
        SubscribeFilter::LatestObject
    }
}

impl SubscribeFilter {
    /// The filter as the fields of a `Subscribe` message.
    pub open spec fn parts(self) -> (FilterType, Option<SubscribePair>, Option<u64>) {
        match self {
            SubscribeFilter::AbsoluteStart(start) => (FilterType::AbsoluteStart, Some(start), None),
            SubscribeFilter::AbsoluteRange(start, end_group) => (
                FilterType::AbsoluteRange,
                Some(start),
                Some(end_group),
            ),
            SubscribeFilter::LatestObject => (FilterType::LatestObject, None, None),
        }
    }

    /// The filter as the fields of a `Subscribe` message.
    pub fn unwrap(self) -> (res: (FilterType, Option<SubscribePair>, Option<u64>))
        ensures
            res == self.parts(),
    {
        match self {
            SubscribeFilter::AbsoluteStart(start) => (FilterType::AbsoluteStart, Some(start), None),
            SubscribeFilter::AbsoluteRange(start, end_group) => {
                (FilterType::AbsoluteRange, Some(start), Some(end_group))
            },
            SubscribeFilter::LatestObject => (FilterType::LatestObject, None, None),
        }
    }

    /// The filter that a subscription asks for. The message names the start and the end that its
    /// filter type calls for.
    pub fn from_subscribe(subscribe: &subscribe::Subscribe) -> (res: SubscribeFilter)
        requires
            subscribe@.complete(),
        ensures
            res == subscribe_filter(subscribe@),
    {
        match (subscribe.filter_type, subscribe.start, subscribe.end_group) {
            (FilterType::AbsoluteStart, Some(start), _) => SubscribeFilter::AbsoluteStart(start),
            (FilterType::AbsoluteRange, Some(start), Some(end_group)) => {
                SubscribeFilter::AbsoluteRange(start, end_group)
            },
            _ => SubscribeFilter::LatestObject,
        }
    }
}

impl<'a> From<&'a SubscribeUpdate> for SubscribeFilter {
    fn from(update: &'a SubscribeUpdate) -> (res: SubscribeFilter) {
        if update.end_group != 0 {
            SubscribeFilter::AbsoluteRange(update.start, update.end_group - 1)
        } else if !(update.start.group == 0 && update.start.object == 0) {
            // An end of 0 means that the subscription is open-ended.
            SubscribeFilter::AbsoluteStart(update.start)
        } else {
            // From the beginning and open-ended stands for the latest object.
            SubscribeFilter::LatestObject
        }
    }
}

impl<'a> vstd::std_specs::convert::FromSpecImpl<&'a SubscribeUpdate> for SubscribeFilter {
    open spec fn obeys_from_spec() -> bool {
        true
    }

    open spec fn from_spec(update: &'a SubscribeUpdate) -> SubscribeFilter {
        update_filter(update@)
    }
}

/// The message that asks for a track.
pub open spec fn subscribe_message(
    id: u64,
    track: Track,
    filter: SubscribeFilter,
    subscriber_priority: u8,
    params: Seq<ParamView>,
) -> SubscribeView {
    SubscribeView {
        id,
        track_alias: id,
        track_namespace: track.namespace@,
        track_name: track.name@,
        subscriber_priority,
        group_order: GroupOrder::Publisher,
        filter_type: filter.parts().0,
        start: filter.parts().1,
        end_group: filter.parts().2,
        params,
    }
}

/// What identifies a subscription to a track.
pub open spec fn asked_info(id: u64, track: Track) -> InfoView {
    InfoView { id, namespace: track.namespace@, name: track.name@, alias: id }
}

/// A subscription, held by the application.
#[must_use]
#[derive(Debug)]
pub struct Subscribe {
    pub info: SubscribeInfo,
}

impl Subscribe {
    /// Asks for a track: sends the message, and gives back the subscription and the half of it that
    /// takes what the publisher answers.
    pub fn new(
        subscriber: &mut Subscriber,
        id: u64,
        track: Track,
        filter: SubscribeFilter,
        subscriber_priority: u8,
        params: Params,
    ) -> (res: (Subscribe, SubscribeRecv))
        ensures
            final(subscriber)@ == old(subscriber)@.push(
                MessageView::Subscribe(
                    subscribe_message(id, track, filter, subscriber_priority, params@),
                ),
            ),
            res.0.info@ == asked_info(id, track),
            res.1.state.open,
            !res.1.state.value.ok,
            res.1.state.value.closed == Ok::<(), ServeError>(()),
            res.1.writer == Some(TrackWriterMode::Track),
    {
        let (filter_type, start, end_group): (
            FilterType,
            Option<SubscribePair>,
            Option<u64>,
        ) = filter.unwrap();
        subscriber.send_message(
            Message::Subscribe(
                subscribe::Subscribe {
                    id,
                    track_alias: id,
                    track_namespace: track.namespace.clone(),
                    track_name: track.name.clone(),
                    subscriber_priority,
                    group_order: GroupOrder::Publisher,  // defer to publisher send order
                    filter_type,
                    start,
                    end_group,
                    params,
                },
            ),
        );

        let info = SubscribeInfo { id, namespace: track.namespace, name: track.name, alias: id };

        let recv = SubscribeRecv {
            state: State::new(SubscribeState::default()),
            writer: Some(TrackWriterMode::Track),
        };

        (Subscribe { info }, recv)
    }

    /// Whether the subscription has ended, and how. `None` where it goes on: its state has to change
    /// first.
    pub fn closed(&self, state: &State<SubscribeState>) -> (res: Option<Result<(), ServeError>>)
        ensures
            res == end_of(state.value.closed, state.open),
    {
        match &state.value.closed {
            Err(err) => Some(Err(err.clone())),
            Ok(()) => if state.open {
                None
            } else {
                Some(Ok(()))
            },
        }
    }

    /// Gives the subscription up: tells the publisher, and leaves the shared state.
    pub fn unsubscribe(self, subscriber: &mut Subscriber, state: &mut State<SubscribeState>)
        ensures
            final(subscriber)@ == old(subscriber)@.push(
                MessageView::Unsubscribe(Unsubscribe { id: self.info.id }),
            ),
            final(state).value == old(state).value,
            !final(state).open,
    {
        subscriber.send_message(Message::Unsubscribe(Unsubscribe { id: self.info.id }));
        state.release();
    }
}

impl ops::Deref for Subscribe {
    type Target = SubscribeInfo;

    fn deref(&self) -> (res: &SubscribeInfo)
        ensures
            *res == self.info,
    {
        &self.info
    }
}

/// How a subscription has ended, if it has: with an error, or because the other half has gone.
pub open spec fn end_of(closed: Result<(), ServeError>, open: bool) -> Option<
    Result<(), ServeError>,
> {
    if closed is Err {
        Some(closed)
    } else if !open {
        Some(Ok(()))
    } else {
        None
    }
}

/// The half of a subscription that takes what the publisher sends.
#[derive(Debug)]
pub struct SubscribeRecv {
    pub state: State<SubscribeState>,
    /// How the track is being written. `None` once the writer has been given up.
    pub writer: Option<TrackWriterMode>,
}

impl SubscribeRecv {
    /// The publisher has accepted the subscription.
    pub fn ok(&mut self) -> (res: Result<(), ServeError>)
        ensures
            res == if old(self).state.value.ok {
                Err::<(), ServeError>(ServeError::Duplicate)
            } else {
                Ok(())
            },
            final(self).state.value.ok == (old(self).state.value.ok || old(self).state.open),
            final(self).state.value.closed == old(self).state.value.closed,
            final(self).state.open == old(self).state.open,
            final(self).writer == old(self).writer,
    {
        if self.state.value.ok {
            return Err(ServeError::Duplicate);
        }
        if self.state.open {
            self.state.value.ok = true;
        }
        Ok(())
    }

    /// The publisher has ended the subscription. A writer that is still there has been closed with
    /// `err`, and `written` is what closing it gave.
    pub fn error(&mut self, err: ServeError, written: Result<(), ServeError>) -> (res: Result<
        (),
        ServeError,
    >)
        ensures
            res == if old(self).writer is Some && written is Err {
                written
            } else if old(self).state.value.closed is Err {
                old(self).state.value.closed
            } else if !old(self).state.open {
                Err(ServeError::Cancel)
            } else {
                Ok(())
            },
            final(self).state.value == (SubscribeState {
                ok: old(self).state.value.ok,
                closed: if res is Ok {
                    Err(err)
                } else {
                    old(self).state.value.closed
                },
            }),
            !final(self).state.open,
            final(self).writer is None,
    {
        let open: bool = self.state.open;
        self.state.release();
        if self.writer.is_some() {
            self.writer = None;
            match written {
                Ok(()) => {},
                Err(failed) => return Err(failed),
            }
        }
        match &self.state.value.closed {
            Ok(()) => {},
            Err(closed) => return Err(closed.clone()),
        }
        if !open {
            return Err(ServeError::Cancel);
        }
        self.state.value.closed = Err(err);
        Ok(())
    }

    /// The publisher starts to send the track as one stream. Gives the priority to open the stream
    /// writer with; `track_opened` is told how that went.
    pub fn track(&mut self, header: data::TrackHeader) -> (res: Result<u8, ServeError>)
        ensures
            res == match old(self).writer {
                None => Err::<u8, ServeError>(ServeError::Done),
                Some(TrackWriterMode::Track) => Ok(header.publisher_priority),
                Some(_) => Err(ServeError::Mode),
            },
            final(self).writer is None,
            final(self).state == old(self).state,
    {
        let writer = match self.writer {
            Some(writer) => writer,
            None => return Err(ServeError::Done),
        };
        self.writer = None;
        match writer {
            TrackWriterMode::Track => Ok(header.publisher_priority),
            _ => Err(ServeError::Mode),
        }
    }

    /// The stream writer has been opened, or not.
    pub fn track_opened(&mut self, opened: Result<(), ServeError>) -> (res: Result<(), ServeError>)
        requires
            old(self).writer is None,
        ensures
            res == opened,
            final(self).writer == if opened is Ok {
                Some(TrackWriterMode::Stream)
            } else {
                None
            },
            final(self).state == old(self).state,
    {
        if opened.is_ok() {
            self.writer = Some(TrackWriterMode::Stream);
        }
        opened
    }

    /// The publisher starts to send a subgroup. Gives the subgroup to create, and the mode that the
    /// writer is in until then; `subgroup_created` is told how that went.
    pub fn subgroup(&mut self, header: data::SubgroupHeader) -> (res: Result<
        (TrackWriterMode, serve::Subgroup),
        ServeError,
    >)
        ensures
            res == match old(self).writer {
                None => Err::<(TrackWriterMode, serve::Subgroup), ServeError>(ServeError::Done),
                Some(writer) => if writer is Track || writer is Subgroups {
                    Ok(
                        (
                            writer,
                            serve::Subgroup {
                                group_id: header.group_id,
                                subgroup_id: header.subgroup_id,
                                priority: header.publisher_priority,
                            },
                        ),
                    )
                } else {
                    Err(ServeError::Mode)
                },
            },
            final(self).writer is None,
            final(self).state == old(self).state,
    {
        let writer = match self.writer {
            Some(writer) => writer,
            None => return Err(ServeError::Done),
        };
        self.writer = None;
        match writer {
            TrackWriterMode::Track => {},
            TrackWriterMode::Subgroups => {},
            _ => return Err(ServeError::Mode),
        }
        let subgroup = serve::Subgroup {
            group_id: header.group_id,
            subgroup_id: header.subgroup_id,
            priority: header.publisher_priority,
        };
        Ok((writer, subgroup))
    }

    /// The subgroup has been created, or not.
    pub fn subgroup_created(&mut self, created: Result<(), ServeError>) -> (res: Result<
        (),
        ServeError,
    >)
        requires
            old(self).writer is None,
        ensures
            res == created,
            final(self).writer == if created is Ok {
                Some(TrackWriterMode::Subgroups)
            } else {
                None
            },
            final(self).state == old(self).state,
    {
        if created.is_ok() {
            self.writer = Some(TrackWriterMode::Subgroups);
        }
        created
    }

    /// The publisher has sent an object as a datagram. Gives the datagram to write, and the mode
    /// that the writer is in until then. The writer is given up with it.
    pub fn datagram(&mut self, datagram: data::Datagram) -> (res: Result<
        (TrackWriterMode, serve::Datagram),
        ServeError,
    >)
        ensures
            res == match old(self).writer {
                None => Err::<(TrackWriterMode, serve::Datagram), ServeError>(ServeError::Done),
                Some(writer) => if writer is Track || writer is Datagrams {
                    Ok(
                        (
                            writer,
                            serve::Datagram {
                                group_id: datagram.group_id,
                                object_id: datagram.object_id,
                                priority: datagram.publisher_priority,
                                status: datagram.object_status,
                                payload: datagram.payload,
                            },
                        ),
                    )
                } else {
                    Err(ServeError::Mode)
                },
            },
            final(self).writer is None,
            final(self).state == old(self).state,
    {
        let writer = match self.writer {
            Some(writer) => writer,
            None => return Err(ServeError::Done),
        };
        self.writer = None;
        match writer {
            TrackWriterMode::Track => {},
            TrackWriterMode::Datagrams => {},
            _ => return Err(ServeError::Mode),
        }
        let datagram = serve::Datagram {
            group_id: datagram.group_id,
            object_id: datagram.object_id,
            priority: datagram.publisher_priority,
            status: datagram.object_status,
            payload: datagram.payload,
        };
        Ok((writer, datagram))
    }
}

/// The message that asks for a track names what its filter calls for, and no more, and the publisher
/// reads the filter back from it.
pub proof fn subscription_keeps_its_filter(
    id: u64,
    track: Track,
    filter: SubscribeFilter,
    subscriber_priority: u8,
    params: Seq<ParamView>,
)
    ensures
        subscribe_message(id, track, filter, subscriber_priority, params).complete(),
        subscribe_message(id, track, filter, subscriber_priority, params).exact(),
        subscribe_filter(subscribe_message(id, track, filter, subscriber_priority, params))
            == filter,
{
}

/// The publisher reads the filter of an update back from it, where that filter is the latest object,
/// or a start other than the very first location without an end.
pub proof fn open_ended_update_keeps_its_filter(m: SubscribeUpdateView, filter: SubscribeFilter)
    requires
        (m.start, m.end_group) == update_range(filter),
        filter !is AbsoluteRange,
        filter != SubscribeFilter::AbsoluteStart(SubscribePair { group: 0, object: 0 }),
    ensures
        update_filter(m) == filter,
{
}

/// An update to a range that ends behind its first group is read back as the range that ends one
/// group earlier.
pub proof fn bounded_update_ends_one_group_earlier(
    m: SubscribeUpdateView,
    start: SubscribePair,
    end_group: u64,
)
    requires
        (m.start, m.end_group) == update_range(SubscribeFilter::AbsoluteRange(start, end_group)),
        end_group > 0,
    ensures
        update_filter(m) == SubscribeFilter::AbsoluteRange(start, (end_group - 1) as u64),
{
}

} // verus!
