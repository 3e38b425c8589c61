//! The publishing side of a subscription.
use super::endpoint::Publisher;
use super::endpoint::SessionError;
use super::subscribe::asked_info;
use super::subscribe::end_of;
use super::subscribe::subscribe_filter;
use super::subscribe::subscribe_message;
use super::subscribe::update_filter;
use super::subscribe::InfoView;
use super::subscribe::SubscribeFilter;
use super::subscribe::SubscribeInfo;
use crate::coding::params::ParamView;
use crate::coding::wire::bytes_left;
use crate::coding::wire::remaining;
use crate::data;
use crate::message::control::Message;
use crate::message::control::MessageView;
use crate::message::control::SubscribeDone;
use crate::message::control::SubscribeError;
use crate::message::control::SubscribeOk;
use crate::message::subscribe;
use crate::message::subscribe::GroupOrder;
use crate::message::subscribe::SubscribePair;
use crate::message::subscribe::SubscribeView;
use crate::message::subscribe_update::SubscribeUpdate;
use crate::serve;
use crate::serve::ServeError;
use crate::serve::Track;
use crate::watch::State;
use std::ops;
use vstd::prelude::*;

verus! {

/// How far a subscription has been served.
#[derive(Debug)]
pub struct SubscribedState {
    /// The highest group that has been sent. `None` where the track had no group at the start.
    pub max_group_id: Option<u64>,
    /// How many streams have been opened.
    pub stream_count: u64,
    pub filter: SubscribeFilter,
    pub priority: u8,
    /// Why the subscription ended, if it did.
    pub closed: Result<(), ServeError>,
}

impl SubscribedState {
    /// The state once an object of a group has been sent.
    pub open spec fn with_group(self, group_id: u64) -> SubscribedState {
        SubscribedState {
            max_group_id: match self.max_group_id {
                Some(max) => Some(if group_id > max { group_id } else { max }),
                None => None,
            },
            ..self
        }
    }

    /// Notes that an object of a group is sent.
    pub fn update_max_group_id(&mut self, group_id: u64) -> (res: Result<(), ServeError>)
        ensures
            res == Ok::<(), ServeError>(()),
            *final(self) == old(self).with_group(group_id),
    {
        if let Some(max_group_id) = self.max_group_id {
            if group_id > max_group_id {
                self.max_group_id = Some(group_id);
            }
        }
        Ok(())
    }

    /// The state once another stream has been opened.
    pub open spec fn with_stream(self) -> SubscribedState {
        SubscribedState { stream_count: (self.stream_count + 1) as u64, ..self }
    }

    /// Notes that a stream is opened.
    pub fn increment_stream_count(&mut self) -> (res: Result<(), ServeError>)
        requires
            old(self).stream_count < u64::MAX,
        ensures
            res == Ok::<(), ServeError>(()),
            *final(self) == old(self).with_stream(),
    {
        self.stream_count = self.stream_count + 1;
        Ok(())
    }
}

impl Default for SubscribedState {
    fn default() -> (res: SubscribedState)
        ensures
            res == (SubscribedState {
                max_group_id: None,
                stream_count: 0,
                filter: SubscribeFilter::LatestObject,
                priority: 127,
                closed: Ok::<(), ServeError>(()),
            }),
    {
        SubscribedState {
            max_group_id: None,
            stream_count: 0,
            filter: SubscribeFilter::LatestObject,
            priority: 127,
            closed: Ok(()),
        }
    }
}

/// A subscription that a subscriber has asked for, held by what serves the track.
#[derive(Debug)]
pub struct Subscribed {
    /// Whether the subscription has been accepted.
    pub ok: bool,
    pub info: SubscribeInfo,
}

/// The message that ends a subscription: it says that the subscription is done where it had been
/// accepted, and refuses it otherwise.
pub open spec fn last_message(id: u64, ok: bool, state: SubscribedState) -> MessageView {
    let err = if state.closed is Err {
        state.closed->Err_0
    } else {
        ServeError::Done
    };
    if ok {
        MessageView::SubscribeDone {
            id,
            code: err.code_spec(),
            count: state.stream_count,
            reason: err.reason_spec(),
        }
    } else {
        MessageView::SubscribeError {
            id,
            alias: 0,
            code: err.code_spec(),
            reason: err.reason_spec(),
        }
    }
}

/// What closing gives: the error it was closed with before, or that the other half has gone.
pub open spec fn closing(state: State<SubscribedState>) -> Result<(), ServeError> {
    if state.value.closed is Err {
        state.value.closed
    } else if !state.open {
        Err(ServeError::Done)
    } else {
        Ok(())
    }
}

/// What is shared after closing.
pub open spec fn after_closing(state: State<SubscribedState>, err: ServeError) -> SubscribedState {
    if closing(state) is Ok {
        SubscribedState { closed: Err(err), ..state.value }
    } else {
        state.value
    }
}

/// What identifies a subscription that is asked for by a message.
pub open spec fn taken_info(m: SubscribeView) -> InfoView {
    InfoView { id: m.id, namespace: m.track_namespace, name: m.track_name, alias: m.track_alias }
}

impl Subscribed {
    /// Takes a subscription: gives back the half that serves it, and the half that takes what the
    /// subscriber sends next. The message names what its filter calls for.
    pub fn new(msg: subscribe::Subscribe) -> (res: (Subscribed, SubscribedRecv))
        requires
            msg@.complete(),
        ensures
            res.0.info@ == taken_info(msg@),
            !res.0.ok,
            res.1.state.value == (SubscribedState {
                max_group_id: None,
                stream_count: 0,
                filter: subscribe_filter(msg@),
                priority: 127,
                closed: Ok::<(), ServeError>(()),
            }),
            res.1.state.open,
    {
        let mut state = SubscribedState::default();
        state.filter = SubscribeFilter::from_subscribe(&msg);

        let info = SubscribeInfo {
            id: msg.id,
            namespace: msg.track_namespace,
            name: msg.track_name,
            alias: msg.track_alias,
        };

        // Prevents updates after being closed
        let recv = SubscribedRecv { state: State::new(state) };

        (Subscribed { ok: false, info }, recv)
    }

    /// Accepts the subscription to a track, of which `latest` is the latest group and object.
    pub fn accept(
        &mut self,
        publisher: &mut Publisher,
        state: &mut State<SubscribedState>,
        latest: Option<(u64, u64)>,
    ) -> (res: Result<(), ServeError>)
        ensures
            final(self).info == old(self).info,
            final(state).open == old(state).open,
            old(state).open ==> {
                &&& res == Ok::<(), ServeError>(())
                &&& final(self).ok
                &&& final(state).value == (SubscribedState {
                    max_group_id: match latest {
                        Some(latest) => Some(latest.0),
                        None => None,
                    },
                    ..old(state).value
                })
                &&& final(publisher)@ == old(publisher)@.push(
                    MessageView::SubscribeOk(
                        SubscribeOk {
                            id: old(self).info.id,
                            expires: None,
                            group_order: GroupOrder::Descending,
                            latest,
                        },
                    ),
                )
            },
            !old(state).open ==> {
                &&& res == Err::<(), ServeError>(ServeError::Cancel)
                &&& final(self).ok == old(self).ok
                &&& final(state).value == old(state).value
                &&& final(publisher)@ == old(publisher)@
            },
    {
        if !state.open {
            return Err(ServeError::Cancel);
        }
        state.value.max_group_id = match latest {
            None => None,
            Some(latest) => Some(latest.0),
        };

        publisher.send_message(
            Message::SubscribeOk(
                SubscribeOk {
                    id: self.info.id,
                    expires: None,
                    group_order: GroupOrder::Descending,
                    latest,
                },
            ),
        );

        self.ok = true;  // So that the end is told as SubscribeDone
        Ok(())
    }

    /// Ends the subscription once the track has been served, of which `served` is the outcome.
    pub fn serve(
        self,
        publisher: &mut Publisher,
        state: &mut State<SubscribedState>,
        served: Result<(), SessionError>,
    ) -> (res: Result<(), SessionError>)
        ensures
            served is Ok ==> {
                &&& res == served
                &&& final(state).value == old(state).value
            },
            served is Err ==> {
                &&& res == if closing(*old(state)) is Ok {
                    served
                } else {
                    Err(SessionError::Serve(closing(*old(state))->Err_0))
                }
                &&& final(state).value == after_closing(*old(state), served->Err_0.serve_error())
            },
            !final(state).open,
            final(publisher)@ == old(publisher)@.push(
                last_message(self.info.id, self.ok, final(state).value),
            ),
    {
        match &served {
            Ok(()) => {
                self.finish(publisher, state);
            },
            Err(err) => {
                match self.close(publisher, state, err.to_serve_error()) {
                    Ok(()) => {},
                    Err(closed) => return Err(SessionError::Serve(closed)),
                }
            },
        }
        served
    }

    /// Ends the subscription with an error.
    pub fn close(
        self,
        publisher: &mut Publisher,
        state: &mut State<SubscribedState>,
        err: ServeError,
    ) -> (res: Result<(), ServeError>)
        ensures
            res == closing(*old(state)),
            final(state).value == after_closing(*old(state), err),
            !final(state).open,
            final(publisher)@ == old(publisher)@.push(
                last_message(self.info.id, self.ok, final(state).value),
            ),
    {
        let res = match &state.value.closed {
            Err(closed) => Err(closed.clone()),
            Ok(()) => if state.open {
                Ok(())
            } else {
                Err(ServeError::Done)
            },
        };
        if res.is_ok() {
            state.value.closed = Err(err);
        }
        self.finish(publisher, state);
        res
    }

    /// Whether the subscription has ended, and how. `None` where it goes on: its state has to change
    /// first.
    pub fn closed(&self, state: &State<SubscribedState>) -> (res: Option<Result<(), ServeError>>)
        ensures
            res == end_of(state.value.closed, state.open),
    {
        match &state.value.closed {
            Err(err) => Some(Err(err.clone())),
            Ok(()) => if state.open {
                None
            } else {
                Some(Ok(()))
            },
        }
    }

    /// Lets go of the subscription: tells the subscriber how it ended, and leaves the shared state.
    pub fn finish(self, publisher: &mut Publisher, state: &mut State<SubscribedState>)
        ensures
            final(state).value == old(state).value,
            !final(state).open,
            final(publisher)@ == old(publisher)@.push(
                last_message(self.info.id, self.ok, old(state).value),
            ),
    {
        let err = match &state.value.closed {
            Err(err) => err.clone(),
            Ok(()) => ServeError::Done,
        };
        let stream_count: u64 = state.value.stream_count;
        let message = if self.ok {
            Message::SubscribeDone(
                SubscribeDone {
                    id: self.info.id,
                    code: err.code(),
                    count: stream_count,
                    reason: err.reason(),
                },
            )
        } else {
            Message::SubscribeError(
                SubscribeError {
                    id: self.info.id,
                    alias: 0,
                    code: err.code(),
                    reason: err.reason(),
                },
            )
        };
        publisher.send_message(message);
        state.release();
    }

    /// The header of a subgroup, as its stream starts with it.
    pub fn subgroup_header(&self, subgroup: serve::Subgroup) -> (res: data::SubgroupHeader)
        ensures
            res == (data::SubgroupHeader {
                subscribe_id: self.info.id,
                track_alias: self.info.alias,
                group_id: subgroup.group_id,
                subgroup_id: subgroup.subgroup_id,
                publisher_priority: subgroup.priority,
            }),
    {
        data::SubgroupHeader {
            subscribe_id: self.info.id,
            track_alias: self.info.alias,
            group_id: subgroup.group_id,
            subgroup_id: subgroup.subgroup_id,
            publisher_priority: subgroup.priority,
        }
    }

    /// An object that is served as a datagram, as it is sent.
    pub fn serve_datagram(&self, datagram: serve::Datagram) -> (res: data::Datagram)
        ensures
            res == (data::Datagram {
                subscribe_id: self.info.id,
                track_alias: self.info.alias,
                group_id: datagram.group_id,
                object_id: datagram.object_id,
                publisher_priority: datagram.priority,
                object_status: datagram.status,
                payload_len: bytes_left(datagram.payload).len() as u64,
                payload: datagram.payload,
            }),
            res.payload_len == bytes_left(datagram.payload).len(),
    {
        let payload_len: u64 = remaining(&datagram.payload) as u64;
        data::Datagram {
            subscribe_id: self.info.id,
            track_alias: self.info.alias,
            group_id: datagram.group_id,
            object_id: datagram.object_id,
            publisher_priority: datagram.priority,
            object_status: datagram.status,
            payload_len,
            payload: datagram.payload,
        }
    }
}

impl ops::Deref for Subscribed {
    type Target = SubscribeInfo;

    fn deref(&self) -> (res: &SubscribeInfo)
        ensures
            *res == self.info,
    {
        &self.info
    }
}

/// Notes that a stream has been opened for a subscription that both halves still hold.
pub fn stream_opened(state: &mut State<SubscribedState>) -> (res: Result<(), ServeError>)
    requires
        old(state).open ==> old(state).value.stream_count < u64::MAX,
    ensures
        res == if old(state).open {
            Ok::<(), ServeError>(())
        } else {
            Err(ServeError::Done)
        },
        final(state).value == if old(state).open {
            old(state).value.with_stream()
        } else {
            old(state).value
        },
        final(state).open == old(state).open,
{
    if !state.open {
        return Err(ServeError::Done);
    }
    state.value.increment_stream_count()
}

/// Notes that an object of a group is sent for a subscription that both halves still hold.
pub fn object_sent(state: &mut State<SubscribedState>, group_id: u64) -> (res: Result<
    (),
    ServeError,
>)
    ensures
        res == if old(state).open {
            Ok::<(), ServeError>(())
        } else {
            Err(ServeError::Done)
        },
        final(state).value == if old(state).open {
            old(state).value.with_group(group_id)
        } else {
            old(state).value
        },
        final(state).open == old(state).open,
{
    if !state.open {
        return Err(ServeError::Done);
    }
    state.value.update_max_group_id(group_id)
}

/// Whether a group is served at all: it is not where the filter starts behind it.
pub open spec fn wants_group(filter: SubscribeFilter, group_id: u64) -> bool {
    filter matches SubscribeFilter::AbsoluteStart(start) ==> start.group <= group_id
}

/// Whether a group is served at all.
pub fn serves_group(filter: SubscribeFilter, group_id: u64) -> (res: bool)
    ensures
        res == wants_group(filter, group_id),
{
    match filter {
        SubscribeFilter::AbsoluteStart(start) => group_id >= start.group,
        _ => true,
    }
}

/// What becomes of an object of a subgroup.
#[derive(Clone, Copy, Debug, PartialEq, Eq, Structural)]
pub enum ObjectAction {
    Send,
    /// It is left out, and those behind it are looked at.
    Skip,
    /// It is left out, and so is the rest of the subgroup.
    Stop,
}

/// What becomes of an object under a filter.
pub open spec fn object_action(filter: SubscribeFilter, location: SubscribePair) -> ObjectAction {
    match filter {
        SubscribeFilter::AbsoluteStart(start) => if location.group < start.group {
            ObjectAction::Stop
        } else if location.before(start) {
            ObjectAction::Skip
        } else {
            ObjectAction::Send
        },
        _ => ObjectAction::Send,
    }
}

/// What becomes of the next object of a subgroup under the filter of the moment.
pub fn serve_object(filter: SubscribeFilter, group_id: u64, object_id: u64) -> (res: ObjectAction)
    ensures
        res == object_action(filter, SubscribePair { group: group_id, object: object_id }),
{
    match filter {
        SubscribeFilter::AbsoluteStart(start) => if group_id < start.group {
            ObjectAction::Stop
        } else if group_id == start.group && object_id < start.object {
            ObjectAction::Skip
        } else {
            ObjectAction::Send
        },
        _ => ObjectAction::Send,
    }
}

/// The serving of a track as a stream for each subgroup: one task for each subgroup that has come,
/// until there are no more of them or the subscription is closed, and then until the last task ends.
#[derive(Debug)]
pub struct SubgroupsServing {
    /// Why no more subgroups are taken, if so.
    pub done: Option<Result<(), ServeError>>,
    /// How many tasks are running.
    pub tasks: u64,
}

impl SubgroupsServing {
    /// Nothing served yet.
    pub fn new() -> (res: SubgroupsServing)
        ensures
            res == (SubgroupsServing { done: None, tasks: 0 }),
    {
        SubgroupsServing { done: None, tasks: 0 }
    }

    /// The next subgroup has come, or the end of them. Gives the header of the subgroup to start a
    /// task for, if any.
    pub fn next_subgroup(
        &mut self,
        subscribed: &Subscribed,
        next: Result<Option<serve::Subgroup>, ServeError>,
    ) -> (res: Option<data::SubgroupHeader>)
        requires
            old(self).done is None,
            old(self).tasks < u64::MAX,
        ensures
            match next {
                Ok(Some(subgroup)) => {
                    &&& res == Some(
                        data::SubgroupHeader {
                            subscribe_id: subscribed.info.id,
                            track_alias: subscribed.info.alias,
                            group_id: subgroup.group_id,
                            subgroup_id: subgroup.subgroup_id,
                            publisher_priority: subgroup.priority,
                        },
                    )
                    &&& final(self).done is None
                    &&& final(self).tasks == old(self).tasks + 1
                },
                Ok(None) => {
                    &&& res is None
                    &&& final(self).done == Some(Ok::<(), ServeError>(()))
                    &&& final(self).tasks == old(self).tasks
                },
                Err(err) => {
                    &&& res is None
                    &&& final(self).done == Some(Err::<(), ServeError>(err))
                    &&& final(self).tasks == old(self).tasks
                },
            },
    {
        match next {
            Ok(Some(subgroup)) => {
                self.tasks = self.tasks + 1;
                Some(subscribed.subgroup_header(subgroup))
            },
            Ok(None) => {
                self.done = Some(Ok(()));
                None
            },
            Err(err) => {
                self.done = Some(Err(err));
                None
            },
        }
    }

    /// The subscription has been closed.
    pub fn closed(&mut self, closed: Result<(), ServeError>)
        requires
            old(self).done is None,
        ensures
            *final(self) == (SubgroupsServing { done: Some(closed), tasks: old(self).tasks }),
    {
        self.done = Some(closed);
    }

    /// A task has ended, however it went.
    pub fn task_ended(&mut self)
        requires
            old(self).tasks > 0,
        ensures
            *final(self) == (SubgroupsServing {
                done: old(self).done,
                tasks: (old(self).tasks - 1) as u64,
            }),
    {
        self.tasks = self.tasks - 1;
    }

    /// The outcome, once no more subgroups are taken and no task is running.
    pub fn outcome(&self) -> (res: Option<Result<(), ServeError>>)
        ensures
            res == match self.done {
                Some(Ok(_)) if self.tasks == 0 => Some(Ok::<(), ServeError>(())),
                Some(Err(err)) if self.tasks == 0 => Some(Err(err)),
                _ => None,
            },
    {
        if self.tasks != 0 {
            return None;
        }
        match &self.done {
            None => None,
            Some(Ok(())) => Some(Ok(())),
            Some(Err(err)) => Some(Err(err.clone())),
        }
    }
}

/// The half of a subscription that takes what the subscriber sends.
#[derive(Debug)]
pub struct SubscribedRecv {
    pub state: State<SubscribedState>,
}

/// Whether an update may replace a filter, while `max_group_id` is the highest group sent.
pub open spec fn may_become(
    filter: SubscribeFilter,
    update: SubscribeFilter,
    max_group_id: Option<u64>,
) -> bool {
    match (filter, update) {
        (SubscribeFilter::AbsoluteStart(start), SubscribeFilter::AbsoluteStart(new_start)) => {
            start.up_to(new_start)
        },
        (SubscribeFilter::AbsoluteStart(start), SubscribeFilter::AbsoluteRange(new_start, new_end))
            => { start.up_to(new_start) && new_start.group <= new_end },
        (SubscribeFilter::AbsoluteStart(_), SubscribeFilter::LatestObject) => true,
        (
            SubscribeFilter::AbsoluteRange(start, end),
            SubscribeFilter::AbsoluteRange(new_start, new_end),
        ) => { start.up_to(new_start) && new_start.group <= new_end && new_end <= end },
        (SubscribeFilter::AbsoluteRange(_, _), _) => false,
        (SubscribeFilter::LatestObject, SubscribeFilter::AbsoluteStart(new_start)) => {
            max_group_id matches Some(max) ==> new_start.group >= max
        },
        (SubscribeFilter::LatestObject, SubscribeFilter::AbsoluteRange(new_start, new_end)) => {
            &&& max_group_id matches Some(max) ==> new_start.group >= max
            &&& new_start.group <= new_end
        },
        (SubscribeFilter::LatestObject, SubscribeFilter::LatestObject) => true,
    }
}

/// Whether an update may replace a filter, while `max_group_id` is the highest group sent.
fn narrows(filter: SubscribeFilter, update: SubscribeFilter, max_group_id: Option<u64>) -> (res:
    bool)
    ensures
        res == may_become(filter, update, max_group_id),
{
    match (filter, update) {
        (SubscribeFilter::AbsoluteStart(start), SubscribeFilter::AbsoluteStart(new_start)) => {
            start <= new_start
        },
        (SubscribeFilter::AbsoluteStart(start), SubscribeFilter::AbsoluteRange(new_start, new_end))
            => { start <= new_start && new_start.group <= new_end },
        (SubscribeFilter::AbsoluteStart(_), SubscribeFilter::LatestObject) => true,
        (
            SubscribeFilter::AbsoluteRange(start, end),
            SubscribeFilter::AbsoluteRange(new_start, new_end),
        ) => { start <= new_start && new_start.group <= new_end && new_end <= end },
        (SubscribeFilter::AbsoluteRange(_, _), _) => false,
        (SubscribeFilter::LatestObject, SubscribeFilter::AbsoluteStart(new_start)) => {
            match max_group_id {
                Some(max) => new_start.group >= max,
                None => true,
            }
        },
        (SubscribeFilter::LatestObject, SubscribeFilter::AbsoluteRange(new_start, new_end)) => {
            match max_group_id {
                Some(max) => new_start.group >= max && new_start.group <= new_end,
                None => new_start.group <= new_end,
            }
        },
        (SubscribeFilter::LatestObject, SubscribeFilter::LatestObject) => true,
    }
}

impl SubscribedRecv {
    /// The subscriber has changed the subscription. Its priority is taken over in any case, its
    /// filter where that may replace the one that was there.
    pub fn recv_subscribe_update(&mut self, msg: SubscribeUpdate) -> (res: Result<(), ServeError>)
        ensures
            !old(self).state.open ==> {
                &&& res == Ok::<(), ServeError>(())
                &&& *final(self) == *old(self)
            },
            old(self).state.open ==> {
                let before = old(self).state.value;
                let accepted = may_become(
                    before.filter,
                    update_filter(msg@),
                    before.max_group_id,
                );
                &&& accepted ==> res == Ok::<(), ServeError>(())
                &&& !accepted ==> {
                    &&& res matches Err(ServeError::Internal(reason))
                    &&& reason@ == "narrowing subscribe update"@
                }
                &&& final(self).state.value == (SubscribedState {
                    priority: msg.subscriber_priority,
                    filter: if accepted {
                        update_filter(msg@)
                    } else {
                        before.filter
                    },
                    ..before
                })
                &&& final(self).state.open
            },
    {
        if self.state.open {
            self.state.value.priority = msg.subscriber_priority;

            let filter: SubscribeFilter = SubscribeFilter::from(&msg);

            // Subscriptions can only become more narrow, not wider.
            //
            // See: "A publisher SHOULD close the Session as a 'Protocol
            //       Violation' if the SUBSCRIBE_UPDATE violates either
            //       rule [...]"
            if !narrows(self.state.value.filter, filter, self.state.value.max_group_id) {
                return Err(ServeError::Internal(String::from_str("narrowing subscribe update")));
            }
            self.state.value.filter = filter;
        }
        Ok(())
    }

    /// The subscriber has given the subscription up.
    pub fn recv_unsubscribe(&mut self) -> (res: Result<(), ServeError>)
        ensures
            res == match old(self).state.value.closed {
                Ok(_) => Ok::<(), ServeError>(()),
                Err(err) => Err(err),
            },
            final(self).state.value == (SubscribedState {
                closed: if old(self).state.open && res is Ok {
                    Err::<(), ServeError>(ServeError::Cancel)
                } else {
                    old(self).state.value.closed
                },
                ..old(self).state.value
            }),
            final(self).state.open == old(self).state.open,
    {
        match &self.state.value.closed {
            Ok(()) => {},
            Err(err) => return Err(err.clone()),
        }
        if self.state.open {
            self.state.value.closed = Err(ServeError::Cancel);
        }
        Ok(())
    }
}

/// Whether a location lies in what a filter asks for, while `max_group_id` is the highest group
/// sent: the latest object is in no earlier group.
pub open spec fn covers(
    filter: SubscribeFilter,
    max_group_id: Option<u64>,
    location: SubscribePair,
) -> bool {
    match filter {
        SubscribeFilter::AbsoluteStart(start) => start.up_to(location),
        SubscribeFilter::AbsoluteRange(start, end) => start.up_to(location) && location.group
            <= end,
        SubscribeFilter::LatestObject => max_group_id matches Some(max) ==> location.group >= max,
    }
}

/// A subscription can only become more narrow: an update that is accepted asks for nothing that was
/// not asked for before. A start that is replaced by the latest object is the one update for which
/// that is not checked.
pub proof fn subscription_only_narrows(
    filter: SubscribeFilter,
    update: SubscribeFilter,
    max_group_id: Option<u64>,
    location: SubscribePair,
)
    requires
        may_become(filter, update, max_group_id),
        !(filter is AbsoluteStart && update is LatestObject),
        covers(update, max_group_id, location),
    ensures
        covers(filter, max_group_id, location),
{
}

/// A range never becomes open-ended again.
pub proof fn range_stays_a_range(
    filter: SubscribeFilter,
    update: SubscribeFilter,
    max_group_id: Option<u64>,
)
    requires
        filter is AbsoluteRange,
        may_become(filter, update, max_group_id),
    ensures
        update is AbsoluteRange,
{
}

/// The filter that is there may always be asked for again, unless it is a range that ends before it
/// starts.
pub proof fn same_filter_is_accepted(filter: SubscribeFilter, max_group_id: Option<u64>)
    requires
        filter matches SubscribeFilter::AbsoluteRange(start, end) ==> start.group <= end,
    ensures
        may_become(filter, filter, max_group_id),
{
}

/// The highest group never goes down, and no object changes anything else.
pub proof fn highest_group_never_goes_down(state: SubscribedState, group_id: u64)
    ensures
        state.max_group_id matches Some(max) ==> {
            &&& state.with_group(group_id).max_group_id matches Some(new_max)
            &&& max <= new_max
            &&& group_id <= new_max
        },
        state.max_group_id is None ==> state.with_group(group_id) == state,
        (SubscribedState { max_group_id: state.max_group_id, ..state.with_group(group_id) })
            == state,
{
}

/// Where a start is asked for, the objects that are sent are those from there on.
pub proof fn objects_before_the_start_are_left_out(
    start: SubscribePair,
    max_group_id: Option<u64>,
    location: SubscribePair,
)
    ensures
        object_action(SubscribeFilter::AbsoluteStart(start), location) is Send <==> covers(
            SubscribeFilter::AbsoluteStart(start),
            max_group_id,
            location,
        ),
{
}

/// Once an object has made a subgroup stop, no later filter would have had it sent.
pub proof fn stopped_subgroup_stays_unwanted(
    filter: SubscribeFilter,
    update: SubscribeFilter,
    max_group_id: Option<u64>,
    location: SubscribePair,
)
    requires
        filter is AbsoluteStart,
        update is AbsoluteStart,
        may_become(filter, update, max_group_id),
        object_action(filter, location) is Stop,
    ensures
        object_action(update, location) is Stop,
{
}

/// What a subscriber asks for is what the publisher takes: the two ends know the subscription under
/// the same identity and with the same filter.
pub proof fn both_ends_agree(
    id: u64,
    track: Track,
    filter: SubscribeFilter,
    subscriber_priority: u8,
    params: Seq<ParamView>,
)
    ensures
        taken_info(subscribe_message(id, track, filter, subscriber_priority, params))
            == asked_info(id, track),
        subscribe_filter(subscribe_message(id, track, filter, subscriber_priority, params))
            == filter,
{
}

/// A subscription that its subscriber has given up ends as cancelled, whatever it is closed with
/// afterwards.
pub proof fn unsubscribed_ends_as_cancelled(
    id: u64,
    ok: bool,
    state: State<SubscribedState>,
    err: ServeError,
)
    requires
        state.value.closed == Err::<(), ServeError>(ServeError::Cancel),
    ensures
        after_closing(state, err) == state.value,
        last_message(id, ok, after_closing(state, err)) == if ok {
            MessageView::SubscribeDone {
                id,
                code: 1,
                count: state.value.stream_count,
                reason: "cancelled"@,
            }
        } else {
            MessageView::SubscribeError { id, alias: 0, code: 1, reason: "cancelled"@ }
        },
{
}

} // verus!
