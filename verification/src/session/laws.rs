//! What holds of the two ends of a subscription, in terms of locations, groups and errors.
use super::endpoint::SessionError;
use super::serving::subgroup_step;
use super::serving::track_step;
use super::serving::can_happen;
use super::serving::Action;
use super::serving::Event;
use super::serving::Phase;
use super::subscribe::asked_info;
use super::subscribe::end_of;
use super::subscribe::subscribe_filter;
use super::subscribe::subscribe_message;
use super::subscribe::update_filter;
use super::subscribe::SubscribeFilter;
use super::subscribed::after_closing;
use super::subscribed::closing;
use super::subscribed::covers;
use super::subscribed::last_message;
use super::subscribed::may_become;
use super::subscribed::object_action;
use super::subscribed::taken_info;
use super::subscribed::wants_group;
use super::subscribed::SubscribedState;
use crate::coding::params::ParamView;
use crate::data;
use crate::message::control::MessageView;
use crate::message::subscribe::FilterType;
use crate::message::subscribe::GroupOrder;
use crate::message::subscribe::SubscribePair;
use crate::message::subscribe::SubscribeView;
use crate::message::subscribe_update::update_range;
use crate::message::subscribe_update::SubscribeUpdateView;
use crate::serve::ServeError;
use crate::serve::Track;
use crate::watch::State;
use vstd::prelude::*;

verus! {

/// Only a filter with a start and no end leaves objects out. It leaves out those before the start:
/// with the rest of the subgroup where the start lies in a later group, and one by one in the group of
/// the start.
pub proof fn objects_are_served_by_group_and_object(
    filter: SubscribeFilter,
    location: SubscribePair,
)
    ensures
        filter !is AbsoluteStart ==> object_action(filter, location) is Send,
        filter matches SubscribeFilter::AbsoluteStart(start) ==> {
            &&& object_action(filter, location) is Stop <==> location.group < start.group
            &&& object_action(filter, location) is Skip <==> location.group == start.group
                && location.object < start.object
            &&& object_action(filter, location) is Send <==> location.group > start.group || (
            location.group == start.group && location.object >= start.object)
        },
{
}

/// Only a filter with a start and no end leaves out whole groups, and these are the groups before the
/// start. Of a group that is left out no object would be served.
pub proof fn groups_are_served_from_the_start_on(filter: SubscribeFilter, group_id: u64, object: u64)
    ensures
        filter !is AbsoluteStart ==> wants_group(filter, group_id),
        filter matches SubscribeFilter::AbsoluteStart(start) ==> (wants_group(filter, group_id)
            <==> group_id >= start.group),
        !wants_group(filter, group_id) <==> object_action(
            filter,
            SubscribePair { group: group_id, object },
        ) is Stop,
{
}

/// Where the start of a filter moves ahead, no object is served that was not served before.
pub proof fn later_start_serves_less(
    start: SubscribePair,
    later: SubscribePair,
    location: SubscribePair,
)
    requires
        start.group < later.group || (start.group == later.group && start.object <= later.object),
        object_action(SubscribeFilter::AbsoluteStart(later), location) is Send,
    ensures
        object_action(SubscribeFilter::AbsoluteStart(start), location) is Send,
{
}

/// What a filter asks for: from its start on, up to the end of its last group, and from the highest
/// group on where it is the latest object.
pub proof fn coverage_by_group_and_object(
    start: SubscribePair,
    end: u64,
    max: u64,
    location: SubscribePair,
)
    ensures
        covers(SubscribeFilter::AbsoluteStart(start), Some(max), location) <==> location.group
            > start.group || (location.group == start.group && location.object >= start.object),
        covers(SubscribeFilter::AbsoluteRange(start, end), Some(max), location) <==> (
        location.group > start.group || (location.group == start.group && location.object
            >= start.object)) && location.group <= end,
        covers(SubscribeFilter::LatestObject, Some(max), location) <==> location.group >= max,
        covers(SubscribeFilter::LatestObject, None, location),
        covers(SubscribeFilter::AbsoluteStart(start), None, location) <==> covers(
            SubscribeFilter::AbsoluteStart(start),
            Some(max),
            location,
        ),
        covers(SubscribeFilter::AbsoluteRange(start, end), None, location) <==> covers(
            SubscribeFilter::AbsoluteRange(start, end),
            Some(max),
            location,
        ),
{
}

/// Every update that only narrows is accepted: one that asks for something, and for nothing that was
/// not asked for before, unless it opens the end of a range.
pub proof fn narrowing_updates_are_accepted(
    filter: SubscribeFilter,
    update: SubscribeFilter,
    max_group_id: Option<u64>,
    wanted: SubscribePair,
)
    requires
        covers(update, max_group_id, wanted),
        forall|location: SubscribePair| #[trigger]
            covers(update, max_group_id, location) ==> covers(filter, max_group_id, location),
        filter is AbsoluteRange ==> update is AbsoluteRange,
    ensures
        may_become(filter, update, max_group_id),
{
    match update {
        SubscribeFilter::AbsoluteStart(start) => {
            assert(covers(update, max_group_id, start));
        },
        SubscribeFilter::AbsoluteRange(start, end) => {
            assert(covers(update, max_group_id, start));
            assert(covers(update, max_group_id, SubscribePair { group: end, object: u64::MAX }));
        },
        SubscribeFilter::LatestObject => {},
    }
}

/// From the latest object a subscription goes on at the latest object, at a start in the highest group
/// or behind it, or there in a range that does not end before it starts. Where nothing has been sent,
/// every group will do.
pub proof fn updates_of_the_latest_object(start: SubscribePair, end: u64, max: u64)
    ensures
        may_become(SubscribeFilter::LatestObject, SubscribeFilter::LatestObject, Some(max)),
        may_become(SubscribeFilter::LatestObject, SubscribeFilter::LatestObject, None),
        may_become(
            SubscribeFilter::LatestObject,
            SubscribeFilter::AbsoluteStart(start),
            Some(max),
        ) <==> start.group >= max,
        may_become(SubscribeFilter::LatestObject, SubscribeFilter::AbsoluteStart(start), None),
        may_become(
            SubscribeFilter::LatestObject,
            SubscribeFilter::AbsoluteRange(start, end),
            Some(max),
        ) <==> max <= start.group <= end,
        may_become(SubscribeFilter::LatestObject, SubscribeFilter::AbsoluteRange(start, end), None)
            <==> start.group <= end,
{
}

/// From a start a subscription goes on at the latest object, or at the same or a later location, also
/// in a range that does not end before it starts. What has been sent does not matter.
pub proof fn updates_of_a_start(
    start: SubscribePair,
    new_start: SubscribePair,
    new_end: u64,
    max_group_id: Option<u64>,
)
    ensures
        may_become(
            SubscribeFilter::AbsoluteStart(start),
            SubscribeFilter::LatestObject,
            max_group_id,
        ),
        may_become(
            SubscribeFilter::AbsoluteStart(start),
            SubscribeFilter::AbsoluteStart(new_start),
            max_group_id,
        ) <==> new_start.group > start.group || (new_start.group == start.group
            && new_start.object >= start.object),
        may_become(
            SubscribeFilter::AbsoluteStart(start),
            SubscribeFilter::AbsoluteRange(new_start, new_end),
            max_group_id,
        ) <==> (new_start.group > start.group || (new_start.group == start.group
            && new_start.object >= start.object)) && new_start.group <= new_end,
{
}

/// From a range a subscription goes on only in a range that starts and ends within it, and does not
/// end before it starts. What has been sent does not matter.
pub proof fn updates_of_a_range(
    start: SubscribePair,
    end: u64,
    new_start: SubscribePair,
    new_end: u64,
    max_group_id: Option<u64>,
)
    ensures
        !may_become(
            SubscribeFilter::AbsoluteRange(start, end),
            SubscribeFilter::LatestObject,
            max_group_id,
        ),
        !may_become(
            SubscribeFilter::AbsoluteRange(start, end),
            SubscribeFilter::AbsoluteStart(new_start),
            max_group_id,
        ),
        may_become(
            SubscribeFilter::AbsoluteRange(start, end),
            SubscribeFilter::AbsoluteRange(new_start, new_end),
            max_group_id,
        ) <==> (new_start.group > start.group || (new_start.group == start.group
            && new_start.object >= start.object)) && new_start.group <= new_end <= end,
{
}

/// The highest group is the greater of what it was and the group of the object, and is known only
/// where it was known. Nothing else changes.
pub proof fn highest_group_is_a_maximum(state: SubscribedState, group_id: u64, max: u64)
    ensures
        state.max_group_id is None ==> state.with_group(group_id).max_group_id is None,
        state.max_group_id == Some(max) && group_id > max ==> state.with_group(
            group_id,
        ).max_group_id == Some(group_id),
        state.max_group_id == Some(max) && group_id <= max ==> state.with_group(
            group_id,
        ).max_group_id == Some(max),
        state.with_group(group_id).stream_count == state.stream_count,
        state.with_group(group_id).filter == state.filter,
        state.with_group(group_id).priority == state.priority,
        state.with_group(group_id).closed == state.closed,
{
}

/// A stream that is opened is one more, and changes nothing else.
pub proof fn each_stream_is_one_more(state: SubscribedState)
    requires
        state.stream_count < u64::MAX,
    ensures
        state.with_stream().stream_count == state.stream_count + 1,
        state.with_stream().max_group_id == state.max_group_id,
        state.with_stream().filter == state.filter,
        state.with_stream().priority == state.priority,
        state.with_stream().closed == state.closed,
{
}

/// The subscriber is told the end of a subscription under its identity, with the code and the reason of
/// the error that it was closed with, or as done where it was not closed. Whether it had been accepted
/// decides between the two messages, and the count of streams goes with the first.
pub proof fn end_is_told_with_its_error(id: u64, state: SubscribedState, err: ServeError)
    ensures
        state.closed is Ok ==> {
            &&& last_message(id, true, state) == MessageView::SubscribeDone {
                id,
                code: 0,
                count: state.stream_count,
                reason: "done"@,
            }
            &&& last_message(id, false, state) == MessageView::SubscribeError {
                id,
                alias: 0,
                code: 0,
                reason: "done"@,
            }
        },
        state.closed == Err::<(), ServeError>(err) ==> {
            &&& last_message(id, true, state) == MessageView::SubscribeDone {
                id,
                code: err.code_spec(),
                count: state.stream_count,
                reason: err.reason_spec(),
            }
            &&& last_message(id, false, state) == MessageView::SubscribeError {
                id,
                alias: 0,
                code: err.code_spec(),
                reason: err.reason_spec(),
            }
        },
{
}

/// A subscription is closed once: the first error stays, and the others are told about it. Without the
/// other half nothing is closed. Nothing but the error changes.
pub proof fn first_error_stays(state: State<SubscribedState>, err: ServeError, first: ServeError)
    ensures
        state.value.closed is Ok && state.open ==> {
            &&& closing(state) == Ok::<(), ServeError>(())
            &&& after_closing(state, err).closed == Err::<(), ServeError>(err)
        },
        state.value.closed is Ok && !state.open ==> {
            &&& closing(state) == Err::<(), ServeError>(ServeError::Done)
            &&& after_closing(state, err).closed is Ok
        },
        state.value.closed == Err::<(), ServeError>(first) ==> {
            &&& closing(state) == Err::<(), ServeError>(first)
            &&& after_closing(state, err).closed == Err::<(), ServeError>(first)
        },
        after_closing(state, err).max_group_id == state.value.max_group_id,
        after_closing(state, err).stream_count == state.value.stream_count,
        after_closing(state, err).filter == state.value.filter,
        after_closing(state, err).priority == state.value.priority,
{
}

/// A subscription that was closed has ended with that error, whether or not the other half is there.
/// One that was not goes on while the other half is there, and has ended well when it is not.
pub proof fn end_follows_closing(closed: Result<(), ServeError>, open: bool, err: ServeError)
    ensures
        closed == Err::<(), ServeError>(err) ==> end_of(closed, open) == Some(
            Err::<(), ServeError>(err),
        ),
        closed is Ok && open ==> end_of(closed, open) is None,
        closed is Ok && !open ==> (end_of(closed, open) matches Some(end) && end is Ok),
{
}

/// The message that asks for a track carries what was asked for: the identity as it was given, which
/// is also the alias, the track, the priority and the parameters. The order is left to the publisher.
pub proof fn subscription_names_what_was_asked_for(
    id: u64,
    track: Track,
    filter: SubscribeFilter,
    subscriber_priority: u8,
    params: Seq<ParamView>,
)
    ensures
        ({
            let m = subscribe_message(id, track, filter, subscriber_priority, params);
            &&& m.id == id
            &&& m.track_alias == id
            &&& m.track_namespace == track.namespace@
            &&& m.track_name == track.name@
            &&& m.subscriber_priority == subscriber_priority
            &&& m.group_order == GroupOrder::Publisher
            &&& m.params == params
            &&& filter is LatestObject ==> m.filter_type == FilterType::LatestObject
            &&& filter matches SubscribeFilter::AbsoluteStart(start) ==> m.filter_type
                == FilterType::AbsoluteStart && m.start == Some(start) && m.end_group is None
            &&& filter matches SubscribeFilter::AbsoluteRange(start, end) ==> m.filter_type
                == FilterType::AbsoluteRange && m.start == Some(start) && m.end_group == Some(end)
        }),
        asked_info(id, track).id == id,
        asked_info(id, track).alias == id,
        asked_info(id, track).namespace == track.namespace@,
        asked_info(id, track).name == track.name@,
{
}

/// The publisher takes a subscription under the identity, the alias, the namespace and the name of the
/// message, with the filter that its filter type and its locations make.
pub proof fn subscription_is_taken_as_the_message_says(
    m: SubscribeView,
    start: SubscribePair,
    end: u64,
)
    ensures
        taken_info(m).id == m.id,
        taken_info(m).alias == m.track_alias,
        taken_info(m).namespace == m.track_namespace,
        taken_info(m).name == m.track_name,
        m.filter_type == FilterType::LatestObject ==> subscribe_filter(m)
            == SubscribeFilter::LatestObject,
        m.filter_type == FilterType::AbsoluteStart && m.start == Some(start) ==> subscribe_filter(m)
            == SubscribeFilter::AbsoluteStart(start),
        m.filter_type == FilterType::AbsoluteRange && m.start == Some(start) && m.end_group == Some(
            end,
        ) ==> subscribe_filter(m) == SubscribeFilter::AbsoluteRange(start, end),
{
}

/// An update names the start of its filter, and its end group, which is 0 where there is none. It names
/// the very first location for the latest object.
pub proof fn update_names_its_locations(start: SubscribePair, end: u64)
    ensures
        update_range(SubscribeFilter::AbsoluteStart(start)) == (start, 0u64),
        update_range(SubscribeFilter::AbsoluteRange(start, end)) == (start, end),
        update_range(SubscribeFilter::LatestObject) == (SubscribePair { group: 0, object: 0 }, 0u64),
{
}

/// An update with an end group other than 0 asks for the range up to the group before it. One without
/// asks for all from its start on, or for the latest object where that is the very first location.
pub proof fn update_asks_for_its_locations(m: SubscribeUpdateView)
    ensures
        m.end_group > 0 ==> {
            &&& update_filter(m) matches SubscribeFilter::AbsoluteRange(start, end)
            &&& start == m.start
            &&& end + 1 == m.end_group
        },
        m.end_group == 0 && (m.start.group > 0 || m.start.object > 0) ==> update_filter(m)
            == SubscribeFilter::AbsoluteStart(m.start),
        m.end_group == 0 && m.start.group == 0 && m.start.object == 0 ==> update_filter(m)
            == SubscribeFilter::LatestObject,
{
}

/// What a step of the serving of a subgroup asks for next, and what it leaves in the shared state. A
/// failure ends the serving with its error. The stream is counted, and its header follows, only while
/// both halves are there; so it is with the group of an object whose header has been written. The
/// objects follow on the header and on each other. The payload of an object is read and written until
/// there is no more of it. The serving ends well when there are no more objects, or when an object comes
/// before the group of the start.
pub proof fn steps_of_a_subgroup(
    header: data::SubgroupHeader,
    phase: Phase,
    state: State<SubscribedState>,
    event: Event<data::SubgroupObject>,
)
    requires
        can_happen(phase, event),
        phase !is NextGroup,
        phase is Open ==> state.value.stream_count < u64::MAX,
    ensures
        ({
            let (next, value, action) = subgroup_step(header, phase, state, event);
            let gone = Err::<(), SessionError>(SessionError::Serve(ServeError::Done));
            let counted = phase is Open && event is Done && state.open;
            let noted = phase is Object && event is Done && state.open;
            &&& event matches Event::Failed(err) ==> action == Action::<
                data::SubgroupHeader,
                data::SubgroupObject,
            >::Return(Err(err))
            &&& phase is Open && event is Done ==> if state.open {
                action == Action::<data::SubgroupHeader, data::SubgroupObject>::WriteHeader(
                    header,
                    header.publisher_priority,
                )
            } else {
                action == Action::<data::SubgroupHeader, data::SubgroupObject>::Return(gone)
            }
            &&& phase is Header && event is Done ==> action is NextObject
            &&& phase is Object && event is Done ==> if state.open {
                action is NextChunk
            } else {
                action == Action::<data::SubgroupHeader, data::SubgroupObject>::Return(gone)
            }
            &&& phase is Chunk && event is Done ==> action is NextChunk
            &&& event matches Event::Chunk(chunk) ==> action == Action::<
                data::SubgroupHeader,
                data::SubgroupObject,
            >::WriteChunk(chunk)
            &&& event is End && phase is NextChunk ==> action is NextObject
            &&& event is End && phase is NextObject ==> (action matches Action::Return(res)
                && res is Ok)
            &&& event matches Event::Object(object) ==> {
                let start = state.value.filter->AbsoluteStart_0;
                if state.value.filter is AbsoluteStart && header.group_id < start.group {
                    action matches Action::Return(res) && res is Ok
                } else if state.value.filter is AbsoluteStart && header.group_id == start.group
                    && object.object_id < start.object {
                    action is NextObject
                } else {
                    action == Action::<data::SubgroupHeader, data::SubgroupObject>::WriteObject(
                        object,
                    )
                }
            }
            &&& value.stream_count == state.value.stream_count + if counted {
                1int
            } else {
                0
            }
            &&& !noted ==> value.max_group_id == state.value.max_group_id
            &&& noted ==> match state.value.max_group_id {
                None => value.max_group_id is None,
                Some(max) => value.max_group_id == Some(
                    if header.group_id > max {
                        header.group_id
                    } else {
                        max
                    },
                ),
            }
            &&& value.filter == state.value.filter
            &&& value.priority == state.value.priority
            &&& value.closed == state.value.closed
            &&& phase_of(action) == next
        }),
{
}

/// The phase in which an action is carried out.
pub open spec fn phase_of<H, O>(action: Action<H, O>) -> Phase {
    match action {
        Action::WriteHeader(_, _) => Phase::Header,
        Action::NextGroup => Phase::NextGroup,
        Action::NextObject => Phase::NextObject,
        Action::WriteObject(_) => Phase::Object,
        Action::NextChunk => Phase::NextChunk,
        Action::WriteChunk(_) => Phase::Chunk,
        Action::Return(_) => Phase::Ended,
    }
}

/// What a step of the serving of a track as one stream asks for next, and what it leaves in the shared
/// state. A failure ends the serving with its error. The stream is counted, and its header follows, only
/// while both halves are there; so it is with the group of an object that comes, and with the object
/// itself. The groups follow on the header and on each other, the objects on their group and on each
/// other. The payload of an object is read and written until there is no more of it. The serving ends
/// well when there are no more groups.
pub proof fn steps_of_a_track(
    header: data::TrackHeader,
    phase: Phase,
    state: State<SubscribedState>,
    event: Event<data::TrackObject>,
)
    requires
        can_happen(phase, event),
        phase is Open ==> state.value.stream_count < u64::MAX,
    ensures
        ({
            let (next, value, action) = track_step(header, phase, state, event);
            let gone = Err::<(), SessionError>(SessionError::Serve(ServeError::Done));
            let counted = phase is Open && event is Done && state.open;
            let noted = event is Object && state.open;
            &&& event matches Event::Failed(err) ==> action == Action::<
                data::TrackHeader,
                data::TrackObject,
            >::Return(Err(err))
            &&& phase is Open && event is Done ==> if state.open {
                action == Action::<data::TrackHeader, data::TrackObject>::WriteHeader(
                    header,
                    header.publisher_priority,
                )
            } else {
                action == Action::<data::TrackHeader, data::TrackObject>::Return(gone)
            }
            &&& phase is Header && event is Done ==> action is NextGroup
            &&& event is Group ==> action is NextObject
            &&& phase is Object && event is Done ==> action is NextChunk
            &&& phase is Chunk && event is Done ==> action is NextChunk
            &&& event matches Event::Chunk(chunk) ==> action == Action::<
                data::TrackHeader,
                data::TrackObject,
            >::WriteChunk(chunk)
            &&& event is End && phase is NextChunk ==> action is NextObject
            &&& event is End && phase is NextObject ==> action is NextGroup
            &&& event is End && phase is NextGroup ==> (action matches Action::Return(res)
                && res is Ok)
            &&& event matches Event::Object(object) ==> if state.open {
                action == Action::<data::TrackHeader, data::TrackObject>::WriteObject(object)
            } else {
                action == Action::<data::TrackHeader, data::TrackObject>::Return(gone)
            }
            &&& value.stream_count == state.value.stream_count + if counted {
                1int
            } else {
                0
            }
            &&& !noted ==> value.max_group_id == state.value.max_group_id
            &&& noted ==> match state.value.max_group_id {
                None => value.max_group_id is None,
                Some(max) => value.max_group_id == Some(
                    if event->Object_0.group_id > max {
                        event->Object_0.group_id
                    } else {
                        max
                    },
                ),
            }
            &&& value.filter == state.value.filter
            &&& value.priority == state.value.priority
            &&& value.closed == state.value.closed
            &&& phase_of(action) == next
        }),
{
}

/// Something can always happen until the serving has ended: in every phase it can fail, what is opened
/// or written can be done, and what is waited for can come or come to its end.
pub proof fn what_can_happen_follows_the_phase<O>(phase: Phase, event: Event<O>)
    ensures
        event is Failed ==> (can_happen(phase, event) <==> phase !is Ended),
        event is Done ==> (can_happen(phase, event) <==> phase is Open || phase is Header || phase
            is Object || phase is Chunk),
        event is Group ==> (can_happen(phase, event) <==> phase is NextGroup),
        event is Object ==> (can_happen(phase, event) <==> phase is NextObject),
        event is Chunk ==> (can_happen(phase, event) <==> phase is NextChunk),
        event is End ==> (can_happen(phase, event) <==> phase is NextGroup || phase is NextObject
            || phase is NextChunk),
{
}

/// An error of what is served closes the subscription as it is. An error of the session closes it as an
/// internal one, with the same reason.
pub proof fn subscription_is_closed_with_the_error(err: ServeError, reason: String)
    ensures
        SessionError::Serve(err).serve_error() == err,
        SessionError::Session(reason).serve_error() == ServeError::Internal(reason),
{
}

} // verus!
