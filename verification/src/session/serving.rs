//! The serving of a track on streams, step by step.
//!
//! What serves a track carries out one action after another and tells how each went; what comes next
//! is decided here.
use super::endpoint::SessionError;
use super::subscribe::SubscribeFilter;
use super::subscribe::SubscribeInfo;
use super::subscribed::object_action;
use super::subscribed::object_sent;
use super::subscribed::serve_object;
use super::subscribed::serves_group;
use super::subscribed::stream_opened;
use super::subscribed::wants_group;
use super::subscribed::ObjectAction;
use super::subscribed::SubscribedState;
use crate::data;
use crate::message::subscribe::SubscribePair;
use crate::serve::ServeError;
use crate::watch::State;
use bytes::Bytes;
use vstd::prelude::*;

verus! {

/// What is being done.
#[derive(Clone, Copy, Debug, PartialEq, Eq, Structural)]
pub enum Phase {
    /// The stream is opened.
    Open,
    /// The header of the stream is written.
    Header,
    /// The next group is waited for.
    NextGroup,
    /// The next object is waited for.
    NextObject,
    /// The header of an object is written.
    Object,
    /// The next piece of the payload is waited for.
    NextChunk,
    /// A piece of the payload is written.
    Chunk,
    /// Nothing.
    Ended,
}

/// How it went.
#[derive(Debug)]
pub enum Event<O> {
    /// It has been done.
    Done,
    /// A group has come.
    Group,
    /// This object has come.
    Object(O),
    /// This piece of the payload has come.
    Chunk(Bytes),
    /// There is nothing more to wait for.
    End,
    /// It failed.
    Failed(SessionError),
}

/// What is to be done next.
#[derive(Debug)]
pub enum Action<H, O> {
    /// The stream starts with this header, and gets this priority.
    WriteHeader(H, u8),
    NextGroup,
    NextObject,
    WriteObject(O),
    NextChunk,
    WriteChunk(Bytes),
    /// Nothing: this is how it ended.
    Return(Result<(), SessionError>),
}

/// Whether something can happen in a phase.
pub open spec fn can_happen<O>(phase: Phase, event: Event<O>) -> bool {
    match event {
        Event::Done => phase is Open || phase is Header || phase is Object || phase is Chunk,
        Event::Group => phase is NextGroup,
        Event::Object(_) => phase is NextObject,
        Event::Chunk(_) => phase is NextChunk,
        Event::End => phase is NextGroup || phase is NextObject || phase is NextChunk,
        Event::Failed(_) => !(phase is Ended),
    }
}

/// The end with an error of what is served.
pub open spec fn serve_failure<H, O>(err: ServeError) -> Action<H, O> {
    Action::Return(Err(SessionError::Serve(err)))
}

/// What follows in the serving of a track as one stream: the next phase, what is shared then, and
/// what is to be done.
pub open spec fn track_step(
    header: data::TrackHeader,
    phase: Phase,
    state: State<SubscribedState>,
    event: Event<data::TrackObject>,
) -> (Phase, SubscribedState, Action<data::TrackHeader, data::TrackObject>) {
    let same = state.value;
    match (phase, event) {
        (_, Event::Failed(err)) => (Phase::Ended, same, Action::Return(Err(err))),
        (Phase::Open, Event::Done) => if state.open {
            (
                Phase::Header,
                same.with_stream(),
                Action::WriteHeader(header, header.publisher_priority),
            )
        } else {
            (Phase::Ended, same, serve_failure(ServeError::Done))
        },
        (Phase::Header, Event::Done) => (Phase::NextGroup, same, Action::NextGroup),
        (Phase::NextGroup, Event::Group) => (Phase::NextObject, same, Action::NextObject),
        (Phase::NextGroup, Event::End) => (Phase::Ended, same, Action::Return(Ok(()))),
        (Phase::NextObject, Event::Object(object)) => if state.open {
            (Phase::Object, same.with_group(object.group_id), Action::WriteObject(object))
        } else {
            (Phase::Ended, same, serve_failure(ServeError::Done))
        },
        (Phase::NextObject, Event::End) => (Phase::NextGroup, same, Action::NextGroup),
        (Phase::NextChunk, Event::Chunk(chunk)) => (
            Phase::Chunk,
            same,
            Action::WriteChunk(chunk),
        ),
        (Phase::NextChunk, Event::End) => (Phase::NextObject, same, Action::NextObject),
        _ => (Phase::NextChunk, same, Action::NextChunk),
    }
}

/// The serving of a track as one stream.
#[derive(Debug)]
pub struct TrackServing {
    pub header: data::TrackHeader,
    pub phase: Phase,
}

impl TrackServing {
    /// The serving of a track with a priority, of which a stream is to be opened first.
    pub fn new(info: &SubscribeInfo, priority: u8) -> (res: TrackServing)
        ensures
            res == (TrackServing {
                header: data::TrackHeader {
                    subscribe_id: info.id,
                    track_alias: info.alias,
                    publisher_priority: priority,
                },
                phase: Phase::Open,
            }),
    {
        let header = data::TrackHeader {
            subscribe_id: info.id,
            track_alias: info.alias,
            publisher_priority: priority,
        };
        TrackServing { header, phase: Phase::Open }
    }

    /// What follows.
    pub fn step(
        &mut self,
        state: &mut State<SubscribedState>,
        event: Event<data::TrackObject>,
    ) -> (res: Action<data::TrackHeader, data::TrackObject>)
        requires
            can_happen(old(self).phase, event),
            old(state).open && old(self).phase is Open ==> old(state).value.stream_count < u64::MAX,
        ensures
            (final(self).phase, final(state).value, res) == track_step(
                old(self).header,
                old(self).phase,
                *old(state),
                event,
            ),
            final(self).header == old(self).header,
            final(state).open == old(state).open,
    {
        let (phase, action): (Phase, Action<data::TrackHeader, data::TrackObject>) = match (
            self.phase,
            event,
        ) {
            (_, Event::Failed(err)) => (Phase::Ended, Action::Return(Err(err))),
            (Phase::Open, Event::Done) => match stream_opened(state) {
                Ok(()) => (
                    Phase::Header,
                    Action::WriteHeader(self.header, self.header.publisher_priority),
                ),
                Err(err) => (Phase::Ended, Action::Return(Err(SessionError::Serve(err)))),
            },
            (Phase::Header, Event::Done) => (Phase::NextGroup, Action::NextGroup),
            (Phase::NextGroup, Event::Group) => (Phase::NextObject, Action::NextObject),
            (Phase::NextGroup, Event::End) => (Phase::Ended, Action::Return(Ok(()))),
            (Phase::NextObject, Event::Object(object)) => match object_sent(
                state,
                object.group_id,
            ) {
                Ok(()) => (Phase::Object, Action::WriteObject(object)),
                Err(err) => (Phase::Ended, Action::Return(Err(SessionError::Serve(err)))),
            },
            (Phase::NextObject, Event::End) => (Phase::NextGroup, Action::NextGroup),
            (Phase::NextChunk, Event::Chunk(chunk)) => (Phase::Chunk, Action::WriteChunk(chunk)),
            (Phase::NextChunk, Event::End) => (Phase::NextObject, Action::NextObject),
            _ => (Phase::NextChunk, Action::NextChunk),
        };
        self.phase = phase;
        action
    }
}

/// What follows in the serving of a subgroup: the next phase, what is shared then, and what is to be
/// done. The filter of the moment decides over each object.
pub open spec fn subgroup_step(
    header: data::SubgroupHeader,
    phase: Phase,
    state: State<SubscribedState>,
    event: Event<data::SubgroupObject>,
) -> (Phase, SubscribedState, Action<data::SubgroupHeader, data::SubgroupObject>) {
    let same = state.value;
    match (phase, event) {
        (_, Event::Failed(err)) => (Phase::Ended, same, Action::Return(Err(err))),
        (Phase::Open, Event::Done) => if state.open {
            (
                Phase::Header,
                same.with_stream(),
                Action::WriteHeader(header, header.publisher_priority),
            )
        } else {
            (Phase::Ended, same, serve_failure(ServeError::Done))
        },
        (Phase::Header, Event::Done) => (Phase::NextObject, same, Action::NextObject),
        (Phase::NextObject, Event::Object(object)) => match object_action(
            same.filter,
            SubscribePair { group: header.group_id, object: object.object_id },
        ) {
            ObjectAction::Stop => (Phase::Ended, same, Action::Return(Ok(()))),
            ObjectAction::Skip => (Phase::NextObject, same, Action::NextObject),
            ObjectAction::Send => (Phase::Object, same, Action::WriteObject(object)),
        },
        (Phase::NextObject, Event::End) => (Phase::Ended, same, Action::Return(Ok(()))),
        (Phase::Object, Event::Done) => if state.open {
            (Phase::NextChunk, same.with_group(header.group_id), Action::NextChunk)
        } else {
            (Phase::Ended, same, serve_failure(ServeError::Done))
        },
        (Phase::NextChunk, Event::Chunk(chunk)) => (
            Phase::Chunk,
            same,
            Action::WriteChunk(chunk),
        ),
        (Phase::NextChunk, Event::End) => (Phase::NextObject, same, Action::NextObject),
        _ => (Phase::NextChunk, same, Action::NextChunk),
    }
}

/// The serving of a subgroup.
#[derive(Debug)]
pub struct SubgroupServing {
    pub header: data::SubgroupHeader,
    pub phase: Phase,
}

impl SubgroupServing {
    /// The serving of a subgroup, of which a stream is to be opened first. `None` where the filter
    /// starts behind its group, so that nothing of it is served.
    pub fn new(header: data::SubgroupHeader, state: &State<SubscribedState>) -> (res: Option<
        SubgroupServing,
    >)
        ensures
            res == if wants_group(state.value.filter, header.group_id) {
                Some(SubgroupServing { header, phase: Phase::Open })
            } else {
                None
            },
    {
        if serves_group(state.value.filter, header.group_id) {
            Some(SubgroupServing { header, phase: Phase::Open })
        } else {
            None
        }
    }

    /// What follows.
    pub fn step(
        &mut self,
        state: &mut State<SubscribedState>,
        event: Event<data::SubgroupObject>,
    ) -> (res: Action<data::SubgroupHeader, data::SubgroupObject>)
        requires
            old(self).phase !is NextGroup,
            can_happen(old(self).phase, event),
            old(state).open && old(self).phase is Open ==> old(state).value.stream_count < u64::MAX,
        ensures
            (final(self).phase, final(state).value, res) == subgroup_step(
                old(self).header,
                old(self).phase,
                *old(state),
                event,
            ),
            final(self).phase !is NextGroup,
            final(self).header == old(self).header,
            final(state).open == old(state).open,
    {
        let (phase, action): (Phase, Action<data::SubgroupHeader, data::SubgroupObject>) = match (
            self.phase,
            event,
        ) {
            (_, Event::Failed(err)) => (Phase::Ended, Action::Return(Err(err))),
            (Phase::Open, Event::Done) => match stream_opened(state) {
                Ok(()) => (
                    Phase::Header,
                    Action::WriteHeader(self.header, self.header.publisher_priority),
                ),
                Err(err) => (Phase::Ended, Action::Return(Err(SessionError::Serve(err)))),
            },
            (Phase::Header, Event::Done) => (Phase::NextObject, Action::NextObject),
            (Phase::NextObject, Event::Object(object)) => match serve_object(
                state.value.filter,
                self.header.group_id,
                object.object_id,
            ) {
                ObjectAction::Stop => (Phase::Ended, Action::Return(Ok(()))),
                ObjectAction::Skip => (Phase::NextObject, Action::NextObject),
                ObjectAction::Send => (Phase::Object, Action::WriteObject(object)),
            },
            (Phase::NextObject, Event::End) => (Phase::Ended, Action::Return(Ok(()))),
            (Phase::Object, Event::Done) => match object_sent(state, self.header.group_id) {
                Ok(()) => (Phase::NextChunk, Action::NextChunk),
                Err(err) => (Phase::Ended, Action::Return(Err(SessionError::Serve(err)))),
            },
            (Phase::NextChunk, Event::Chunk(chunk)) => (Phase::Chunk, Action::WriteChunk(chunk)),
            (Phase::NextChunk, Event::End) => (Phase::NextObject, Action::NextObject),
            _ => (Phase::NextChunk, Action::NextChunk),
        };
        self.phase = phase;
        action
    }
}

/// Nothing of a subgroup is written that the filter of the moment starts behind.
pub proof fn written_objects_are_wanted(
    header: data::SubgroupHeader,
    phase: Phase,
    state: State<SubscribedState>,
    event: Event<data::SubgroupObject>,
)
    requires
        can_happen(phase, event),
        state.value.filter is AbsoluteStart,
    ensures
        subgroup_step(header, phase, state, event).2 matches Action::WriteObject(object) ==> {
            &&& event == Event::Object(object)
            &&& state.value.filter->AbsoluteStart_0.up_to(
                SubscribePair { group: header.group_id, object: object.object_id },
            )
        },
{
}

/// What is shared at a moment of the serving, and what happens then.
pub struct Moment<O> {
    pub state: State<SubscribedState>,
    pub event: Event<O>,
}

/// What is written to a stream.
pub enum Written<H, O> {
    Header(H),
    Object(O),
    Chunk(Bytes),
}

/// What is written by an action.
pub open spec fn writes<H, O>(action: Action<H, O>) -> Seq<Written<H, O>> {
    match action {
        Action::WriteHeader(header, _) => seq![Written::Header(header)],
        Action::WriteObject(object) => seq![Written::Object(object)],
        Action::WriteChunk(chunk) => seq![Written::Chunk(chunk)],
        _ => Seq::empty(),
    }
}

/// How far the serving has come after some moments.
pub struct Run<H, O> {
    pub phase: Phase,
    /// What has been written, in its order.
    pub written: Seq<Written<H, O>>,
    /// By how much the count of streams was raised.
    pub streams: int,
    /// How it ended, if it has.
    pub ended: Option<Result<(), SessionError>>,
}

/// The run that goes on with the outcome of a step.
pub open spec fn run_on<H, O>(
    before: Run<H, O>,
    moment: Moment<O>,
    step: (Phase, SubscribedState, Action<H, O>),
) -> Run<H, O> {
    Run {
        phase: step.0,
        written: before.written + writes(step.2),
        streams: before.streams + (step.1.stream_count - moment.state.value.stream_count),
        ended: match step.2 {
            Action::Return(res) => Some(res),
            _ => None,
        },
    }
}

/// The run before its first moment.
pub open spec fn run_start<H, O>() -> Run<H, O> {
    Run { phase: Phase::Open, written: Seq::empty(), streams: 0, ended: None }
}

/// Whether a moment can follow on a phase.
pub open spec fn can_follow<O>(phase: Phase, moment: Moment<O>) -> bool {
    &&& can_happen(phase, moment.event)
    &&& moment.state.open && phase is Open ==> moment.state.value.stream_count < u64::MAX
}

/// The serving of a subgroup through some moments, whatever is shared at each of them.
pub open spec fn subgroup_run(
    header: data::SubgroupHeader,
    moments: Seq<Moment<data::SubgroupObject>>,
) -> Run<data::SubgroupHeader, data::SubgroupObject>
    decreases moments.len(),
{
    if moments.len() == 0 {
        run_start()
    } else {
        let before = subgroup_run(header, moments.drop_last());
        let moment = moments.last();
        run_on(
            before,
            moment,
            subgroup_step(header, before.phase, moment.state, moment.event),
        )
    }
}

/// Whether moments can follow on each other in the serving of a subgroup.
pub open spec fn subgroup_can_run(
    header: data::SubgroupHeader,
    moments: Seq<Moment<data::SubgroupObject>>,
) -> bool
    decreases moments.len(),
{
    moments.len() == 0 || {
        &&& subgroup_can_run(header, moments.drop_last())
        &&& can_follow(subgroup_run(header, moments.drop_last()).phase, moments.last())
    }
}

/// Whether the stream is opened at the first of some moments, while both halves are there.
pub open spec fn is_opened<O>(moments: Seq<Moment<O>>) -> bool {
    moments.len() > 0 && moments[0].event is Done && moments[0].state.open
}

/// Whether an object of a subgroup is wanted at the moment at which it comes: it is unless the filter
/// has a start and no end, and the object lies before the start.
pub open spec fn is_wanted(
    header: data::SubgroupHeader,
    moment: Moment<data::SubgroupObject>,
    object: data::SubgroupObject,
) -> bool {
    moment.state.value.filter matches SubscribeFilter::AbsoluteStart(start) ==> header.group_id
        > start.group || (header.group_id == start.group && object.object_id >= start.object)
}

/// What is to be written of a subgroup through some moments: once the stream is opened its header,
/// then each object that comes and is wanted, and each piece of its payload that comes.
pub open spec fn subgroup_due(
    header: data::SubgroupHeader,
    moments: Seq<Moment<data::SubgroupObject>>,
) -> Seq<Written<data::SubgroupHeader, data::SubgroupObject>>
    decreases moments.len(),
{
    if moments.len() == 0 {
        Seq::empty()
    } else if moments.len() == 1 {
        if is_opened(moments) {
            seq![Written::Header(header)]
        } else {
            Seq::empty()
        }
    } else {
        let before = subgroup_due(header, moments.drop_last());
        match moments.last().event {
            Event::Object(object) if is_wanted(header, moments.last(), object) => before.push(
                Written::Object(object),
            ),
            Event::Chunk(chunk) => before.push(Written::Chunk(chunk)),
            _ => before,
        }
    }
}

/// Through whatever moments a subgroup is served, what is written is its header, once, and then
/// exactly the objects that are wanted when they come, in their order, each with all pieces of its
/// payload that come. One stream is counted. Without an error the serving ends only when there are no
/// more objects, or when the filter starts behind the group.
pub proof fn subgroup_is_served_whole(
    header: data::SubgroupHeader,
    moments: Seq<Moment<data::SubgroupObject>>,
)
    requires
        subgroup_can_run(header, moments),
    ensures
        ({
            let run = subgroup_run(header, moments);
            &&& run.written == subgroup_due(header, moments)
            &&& run.written.len() > 0 <==> is_opened(moments)
            &&& run.written.len() > 0 ==> run.written[0] == Written::<
                data::SubgroupHeader,
                data::SubgroupObject,
            >::Header(header)
            &&& forall|i: int| 0 < i < run.written.len() ==> !((#[trigger] run.written[i]) is Header)
            &&& run.streams == if is_opened(moments) {
                1int
            } else {
                0
            }
            &&& run.ended == Some(Ok::<(), SessionError>(())) ==> {
                ||| moments.last().event is End
                ||| {
                    &&& moments.last().event is Object
                    &&& moments.last().state.value.filter matches SubscribeFilter::AbsoluteStart(
                        start,
                    )
                    &&& header.group_id < start.group
                }
            }
            &&& run.phase is Open <==> moments.len() == 0
            &&& run.phase is Ended <==> run.ended is Some
            &&& !(run.phase is Open || run.phase is Ended) ==> is_opened(moments)
            &&& run.phase !is NextGroup
        }),
    decreases moments.len(),
{
    if moments.len() > 0 {
        let earlier = moments.drop_last();
        subgroup_is_served_whole(header, earlier);
        if earlier.len() > 0 {
            assert(moments[0] == earlier[0]);
        }
        assert(subgroup_run(header, moments).written =~= subgroup_due(header, moments));
    }
}

/// The serving of a track as one stream through some moments, whatever is shared at each of them.
pub open spec fn track_run(
    header: data::TrackHeader,
    moments: Seq<Moment<data::TrackObject>>,
) -> Run<data::TrackHeader, data::TrackObject>
    decreases moments.len(),
{
    if moments.len() == 0 {
        run_start()
    } else {
        let before = track_run(header, moments.drop_last());
        let moment = moments.last();
        run_on(before, moment, track_step(header, before.phase, moment.state, moment.event))
    }
}

/// Whether moments can follow on each other in the serving of a track as one stream.
pub open spec fn track_can_run(
    header: data::TrackHeader,
    moments: Seq<Moment<data::TrackObject>>,
) -> bool
    decreases moments.len(),
{
    moments.len() == 0 || {
        &&& track_can_run(header, moments.drop_last())
        &&& can_follow(track_run(header, moments.drop_last()).phase, moments.last())
    }
}

/// What is to be written of a track through some moments: once the stream is opened its header, then
/// each object that comes while both halves are there, and each piece of its payload that comes.
pub open spec fn track_due(
    header: data::TrackHeader,
    moments: Seq<Moment<data::TrackObject>>,
) -> Seq<Written<data::TrackHeader, data::TrackObject>>
    decreases moments.len(),
{
    if moments.len() == 0 {
        Seq::empty()
    } else if moments.len() == 1 {
        if is_opened(moments) {
            seq![Written::Header(header)]
        } else {
            Seq::empty()
        }
    } else {
        let before = track_due(header, moments.drop_last());
        match moments.last().event {
            Event::Object(object) if moments.last().state.open => before.push(
                Written::Object(object),
            ),
            Event::Chunk(chunk) => before.push(Written::Chunk(chunk)),
            _ => before,
        }
    }
}

/// Through whatever moments a track is served as one stream, what is written is its header, once, and
/// then exactly the objects that come, in their order, each with all pieces of its payload that come.
/// One stream is counted. Without an error the serving ends only when there are no more groups, and
/// an object that is not written ends it with one.
pub proof fn track_is_served_whole(
    header: data::TrackHeader,
    moments: Seq<Moment<data::TrackObject>>,
)
    requires
        track_can_run(header, moments),
    ensures
        ({
            let run = track_run(header, moments);
            &&& run.written == track_due(header, moments)
            &&& run.written.len() > 0 <==> is_opened(moments)
            &&& run.written.len() > 0 ==> run.written[0] == Written::<
                data::TrackHeader,
                data::TrackObject,
            >::Header(header)
            &&& forall|i: int| 0 < i < run.written.len() ==> !((#[trigger] run.written[i]) is Header)
            &&& run.streams == if is_opened(moments) {
                1int
            } else {
                0
            }
            &&& run.ended == Some(Ok::<(), SessionError>(())) ==> moments.last().event is End
            &&& moments.len() > 0 && moments.last().event is Object && !moments.last().state.open
                ==> run.ended == Some(Err::<(), SessionError>(SessionError::Serve(ServeError::Done)))
            &&& run.phase is Open <==> moments.len() == 0
            &&& run.phase is Ended <==> run.ended is Some
            &&& !(run.phase is Open || run.phase is Ended) ==> is_opened(moments)
        }),
    decreases moments.len(),
{
    if moments.len() > 0 {
        let earlier = moments.drop_last();
        track_is_served_whole(header, earlier);
        if earlier.len() > 0 {
            assert(moments[0] == earlier[0]);
        }
        assert(track_run(header, moments).written =~= track_due(header, moments));
    }
}

} // verus!
