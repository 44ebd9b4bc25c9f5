//! What each call does to the components of a stream, and what it hands back,
//! field by field.
use crate::checklist::HandleRecvReply;
use crate::component::{ComponentConnectionState, ComponentState, ComponentView};
use crate::component::GatherProgress;
use crate::conncheck::Credentials;
use crate::gathering::{GatherEvent, GatherPoll, GathererView, RequestRto};
use crate::net::{AllocatedSocket, Transmit};
use crate::search;
use crate::stream::IncomingStep;
use crate::stream_laws;
use crate::stream_state;
use crate::stream_state::{StreamState, StreamView};
use crate::time::Instant;
use vstd::prelude::*;

verus! {

/// The view of a component shows every field, and of its gatherer every queue.
pub proof fn law_component_is_seen_whole(c: ComponentState)
    ensures
        c@.id == c.id,
        c@.state == c.state,
        c@.selected_pair == c.selected_pair,
        c@.gather_state == c.gather_state,
        c@.gatherer is Some <==> c.gatherer is Some,
        c.gatherer matches Some(g) ==> {
            &&& c@.gatherer->0.rto == g.rto
            &&& c@.gatherer->0.events == g.events@
            &&& c@.gatherer->0.transmits == g.transmits@
            &&& c@.gatherer->0.allocated == g.allocated@
        },
{
}

/// The view of a stream shows every field, and in every place the component that
/// stands there.
pub proof fn law_stream_is_seen_whole(s: StreamState, i: int)
    requires
        0 <= i < s.components@.len(),
    ensures
        s@.id == s.id,
        s@.checklist_id == s.checklist_id,
        s@.local_credentials == s.local_credentials,
        s@.remote_credentials == s.remote_credentials,
        s@.components.len() == s.components@.len(),
        s@.components[i] is Some <==> s.components@[i] is Some,
        s.components@[i] matches Some(c) ==> s@.components[i]->0 == c@,
{
}

/// Components stand in their places exactly where each has the id that is one
/// more than its index.
pub proof fn law_places(stream: StreamView)
    ensures
        stream.wf() <==> forall|i: int|
            0 <= i < stream.components.len() && #[trigger] stream.components[i] is Some
                ==> stream.components[i]->0.id == i + 1,
{
}

/// The component with id `n` is the one at index `n - 1`, and there is none with
/// any other id.
pub proof fn law_lookup(stream: StreamView, component_id: usize)
    ensures
        1 <= component_id <= stream.components.len() ==> stream.component(component_id)
            == stream.components[component_id - 1],
        component_id == 0 || component_id > stream.components.len() ==> stream.component(
            component_id,
        ) is None,
        stream.has_place(component_id) <==> 1 <= component_id <= stream.components.len(),
        stream.gathers(component_id) <==> 1 <= component_id <= stream.components.len()
            && gathering(stream.components[component_id - 1]),
{
}

/// Whether the component in a place is gathering candidates.
pub open spec fn gathering(slot: Option<ComponentView>) -> bool {
    &&& slot is Some
    &&& slot->0.gather_state == GatherProgress::InProgress
    &&& slot->0.gatherer is Some
}

/// Whether the component in a place is gathering and the oldest event of its
/// gatherer is due.
pub open spec fn event_due(slot: Option<ComponentView>, now: Instant) -> bool {
    &&& gathering(slot)
    &&& slot->0.gatherer->0.events.len() > 0
    &&& slot->0.gatherer->0.events[0].at.nanos <= now.nanos
}

/// Whether the component in a place is gathering and the oldest transmit of its
/// gatherer is due.
pub open spec fn transmit_due(slot: Option<ComponentView>, now: Instant) -> bool {
    &&& gathering(slot)
    &&& slot->0.gatherer->0.transmits.len() > 0
    &&& slot->0.gatherer->0.transmits[0].at.nanos <= now.nanos
}

/// Whether an answer reports an event.
pub open spec fn tells(r: GatherPoll, event: GatherEvent) -> bool {
    match event {
        GatherEvent::AllocateSocket(socket) => r == GatherPoll::AllocateSocket(socket),
        GatherEvent::NewCandidate(candidate) => r == GatherPoll::NewCandidate(candidate),
        GatherEvent::Complete(component_id) => r == GatherPoll::Complete(component_id),
    }
}

/// A gatherer whose oldest event is due reports that event, which leaves the
/// queue, and nothing else changes.
pub proof fn law_gatherer_reports_its_oldest_event(g: GathererView, now: Instant)
    requires
        g.events.len() > 0,
        g.events[0].at.nanos <= now.nanos,
    ensures
        tells(g.answer(now), g.events[0].item),
        g.polled(now) == (GathererView { events: g.events.skip(1), ..g }),
{
    assert(g.polled(now).events =~= g.events.skip(1));
}

/// A gatherer that has no event due changes nothing: it waits for the head of
/// the queue that is due first, and has finished where both queues are empty.
pub proof fn law_gatherer_waits_for_its_queues(g: GathererView, now: Instant)
    requires
        g.events.len() > 0 ==> g.events[0].at.nanos > now.nanos,
    ensures
        g.polled(now) == g,
        g.events.len() == 0 && g.transmits.len() == 0 ==> g.answer(now) == GatherPoll::Finished,
        g.events.len() > 0 || g.transmits.len() > 0 ==> {
            let r = g.answer(now);
            &&& r is WaitUntil
            &&& g.events.len() > 0 ==> r->WaitUntil_0.nanos <= g.events[0].at.nanos
            &&& g.transmits.len() > 0 ==> r->WaitUntil_0.nanos <= g.transmits[0].at.nanos
            &&& (g.events.len() > 0 && r->WaitUntil_0 == g.events[0].at) || (g.transmits.len() > 0
                && r->WaitUntil_0 == g.transmits[0].at)
        },
{
}

/// A gatherer hands out its oldest transmit once that is due, and nothing else
/// changes.
pub proof fn law_gatherer_sends_its_oldest_transmit(g: GathererView, now: Instant)
    ensures
        g.sends(now) <==> g.transmits.len() > 0 && g.transmits[0].at.nanos <= now.nanos,
        g.sends(now) ==> g.transmitted(now) == (GathererView {
            transmits: g.transmits.skip(1),
            ..g
        }),
        !g.sends(now) ==> g.transmitted(now) == g,
{
    if g.sends(now) {
        assert(g.transmitted(now).transmits =~= g.transmits.skip(1));
    }
}

/// A poll of a stream reports the oldest event of the first component that has
/// one due.  The event leaves its queue; the component has completed where the
/// event says so and still gathers where it does not; nothing else of it changes,
/// and nothing of any other component.
pub proof fn law_gather_poll_reports_the_first_due(
    stream: StreamView,
    now: Instant,
    r: GatherPoll,
    i: int,
    j: int,
)
    requires
        stream.gather_answers(now, r),
        0 <= i < stream.components.len(),
        event_due(stream.components[i], now),
        forall|k: int| 0 <= k < i ==> !event_due(#[trigger] stream.components[k], now),
    ensures
        ({
            let c = stream.components[i]->0;
            let g = c.gatherer->0;
            let after = stream.gather_polled(now);
            &&& tells(r, g.events[0].item)
            &&& after == (StreamView { components: after.components, ..stream })
            &&& after.components.len() == stream.components.len()
            &&& 0 <= j < stream.components.len() && j != i ==> after.components[j]
                == stream.components[j]
            &&& after.components[i] == Some(
                ComponentView {
                    gather_state: if g.events[0].item is Complete {
                        GatherProgress::Completed
                    } else {
                        GatherProgress::InProgress
                    },
                    gatherer: Some(GathererView { events: g.events.skip(1), ..g }),
                    ..c
                },
            )
        }),
{
    let reports = |slot: Option<ComponentView>| stream_state::slot_reports(slot, now);
    assert forall|k: int| #![trigger stream.components[k]] 0 <= k < i implies !reports(
        stream.components[k],
    ) by {
        assert(!event_due(stream.components[k], now));
    }
    search::lemma_first_found(stream.components, reports, i);
    let g = stream.components[i]->0.gatherer->0;
    law_gatherer_reports_its_oldest_event(g, now);
}

/// Where no component has an event due, a poll of a stream changes nothing.  It
/// says to wait for the least time at which a gathering component has the next
/// event or transmit, and that all has finished where there is none.
pub proof fn law_gather_poll_waits_for_the_least(
    stream: StreamView,
    now: Instant,
    r: GatherPoll,
    j: int,
)
    requires
        stream.gather_answers(now, r),
        forall|k: int|
            0 <= k < stream.components.len() ==> !event_due(
                #[trigger] stream.components[k],
                now,
            ),
    ensures
        stream.gather_polled(now) == stream,
        r is WaitUntil || r is Finished,
        0 <= j < stream.components.len() && gathering(stream.components[j]) ==> {
            let g = stream.components[j]->0.gatherer->0;
            &&& r is Finished ==> g.events.len() == 0 && g.transmits.len() == 0
            &&& r is WaitUntil && g.events.len() > 0 ==> r->WaitUntil_0.nanos
                <= g.events[0].at.nanos
            &&& r is WaitUntil && g.transmits.len() > 0 ==> r->WaitUntil_0.nanos
                <= g.transmits[0].at.nanos
        },
        r is WaitUntil ==> exists|k: int|
            #![trigger stream.components[k]]
            0 <= k < stream.components.len() && gathering(stream.components[k]) && {
                let g = stream.components[k]->0.gatherer->0;
                ||| g.events.len() > 0 && r->WaitUntil_0 == g.events[0].at
                ||| g.transmits.len() > 0 && r->WaitUntil_0 == g.transmits[0].at
            },
{
    let reports = |slot: Option<ComponentView>| stream_state::slot_reports(slot, now);
    assert forall|k: int|
        #![trigger stream.components[k]]
        0 <= k < stream.components.len() implies !reports(stream.components[k]) by {
        assert(!event_due(stream.components[k], now));
    }
    search::lemma_first_absent(stream.components, reports);
    if 0 <= j < stream.components.len() {
        let wake = stream_state::slot_wake(stream.components[j]);
        assert(r is Finished ==> wake is None);
        assert(r is WaitUntil && wake is Some ==> r->WaitUntil_0.nanos <= wake->0.nanos);
    }
    if r is WaitUntil {
        let k = choose|k: int|
            0 <= k < stream.components.len() && #[trigger] stream_state::slot_wake(
                stream.components[k],
            ) == Some(r->WaitUntil_0);
        assert(gathering(stream.components[k]));
    }
}

/// A poll for something to send hands out the oldest transmit of the first
/// component that has one due, under the id of that component.  The transmit
/// leaves its queue; nothing else of the component changes, so that it gathers
/// and reports as before, and nothing of any other component.
pub proof fn law_gather_transmit_changes_one_queue(
    stream: StreamView,
    now: Instant,
    i: int,
    j: int,
)
    requires
        0 <= i < stream.components.len(),
        transmit_due(stream.components[i], now),
        forall|k: int| 0 <= k < i ==> !transmit_due(#[trigger] stream.components[k], now),
    ensures
        ({
            let c = stream.components[i]->0;
            let g = c.gatherer->0;
            let after = stream.gather_transmitted(now);
            &&& stream.gather_transmit(now) == Some((c.id, g.transmits[0].item))
            &&& after == (StreamView { components: after.components, ..stream })
            &&& after.components.len() == stream.components.len()
            &&& 0 <= j < stream.components.len() && j != i ==> after.components[j]
                == stream.components[j]
            &&& after.components[i] == Some(
                ComponentView {
                    gatherer: Some(GathererView { transmits: g.transmits.skip(1), ..g }),
                    ..c
                },
            )
        }),
{
    let sends = |slot: Option<ComponentView>| stream_state::slot_sends(slot, now);
    assert forall|k: int| #![trigger stream.components[k]] 0 <= k < i implies !sends(
        stream.components[k],
    ) by {
        assert(!transmit_due(stream.components[k], now));
    }
    search::lemma_first_found(stream.components, sends, i);
    law_gatherer_sends_its_oldest_transmit(stream.components[i]->0.gatherer->0, now);
}

/// Sending changes neither which components gather nor what any of them has to
/// report, whenever it is asked.
pub proof fn law_sending_keeps_reports(stream: StreamView, now: Instant, later: Instant, j: int)
    requires
        0 <= j < stream.components.len(),
    ensures
        ({
            let before = stream.components[j];
            let after = stream.gather_transmitted(now).components[j];
            &&& stream.gather_transmitted(now).components.len() == stream.components.len()
            &&& gathering(after) == gathering(before)
            &&& event_due(after, later) == event_due(before, later)
            &&& before is Some <==> after is Some
            &&& before is Some ==> after->0.gather_state == before->0.gather_state
            &&& gathering(before) ==> after->0.gatherer->0.events
                == before->0.gatherer->0.events
        }),
{
    search::lemma_first(
        stream.components,
        |slot: Option<ComponentView>| stream_state::slot_sends(slot, now),
    );
}

/// Where no component has a transmit due, there is nothing to send and nothing
/// changes.
pub proof fn law_nothing_to_send(stream: StreamView, now: Instant)
    requires
        forall|k: int|
            0 <= k < stream.components.len() ==> !transmit_due(
                #[trigger] stream.components[k],
                now,
            ),
    ensures
        stream.gather_transmit(now) is None,
        stream.gather_transmitted(now) == stream,
{
    let sends = |slot: Option<ComponentView>| stream_state::slot_sends(slot, now);
    assert forall|k: int|
        #![trigger stream.components[k]]
        0 <= k < stream.components.len() implies !sends(stream.components[k]) by {
        assert(!transmit_due(stream.components[k], now));
    }
    search::lemma_first_absent(stream.components, sends);
}

/// A new component stands in the lowest place that is empty, behind all others
/// if none is, with nothing known of it yet; every other place and the rest of
/// the stream are as they were.
pub proof fn law_new_component_fills_a_place(stream: StreamView, i: int, j: int)
    requires
        0 <= i <= stream.components.len() < usize::MAX,
        i < stream.components.len() ==> stream.components[i] is None,
        forall|k: int| 0 <= k < i ==> #[trigger] stream.components[k] is Some,
    ensures
        ({
            let after = stream.with_new_component();
            &&& stream.free_index() == i
            &&& after == (StreamView { components: after.components, ..stream })
            &&& after.components.len() == if i < stream.components.len() {
                stream.components.len()
            } else {
                stream.components.len() + 1
            }
            &&& 0 <= j < stream.components.len() && j != i ==> after.components[j]
                == stream.components[j]
            &&& after.components[i] == Some(
                ComponentView {
                    id: (i + 1) as usize,
                    state: ComponentConnectionState::New,
                    selected_pair: None,
                    gather_state: GatherProgress::New,
                    gatherer: None,
                },
            )
        }),
{
    stream_laws::lemma_is_free_index(stream, i);
}

/// Removing a component empties its place; every other place and the rest of the
/// stream are as they were.
pub proof fn law_removal_empties_a_place(stream: StreamView, component_id: usize, j: int)
    ensures
        ({
            let after = stream.without_component(component_id);
            &&& after == (StreamView { components: after.components, ..stream })
            &&& after.components.len() == stream.components.len()
            &&& 0 <= j < stream.components.len() ==> after.components[j] == if j + 1
                == component_id {
                None
            } else {
                stream.components[j]
            }
        }),
{
}

/// A restart sets the local credentials, takes those of the peer away, and lets
/// every component connect without a selected pair; gathering goes on as before.
pub proof fn law_restart_of_a_stream(stream: StreamView, local_credentials: Credentials, j: int)
    ensures
        ({
            let after = stream.restarted(local_credentials);
            &&& after == (StreamView {
                components: after.components,
                local_credentials: Some(local_credentials),
                remote_credentials: None,
                ..stream
            })
            &&& after.components.len() == stream.components.len()
            &&& 0 <= j < stream.components.len() ==> (after.components[j] is Some
                <==> stream.components[j] is Some)
            &&& 0 <= j < stream.components.len() && stream.components[j] is Some
                ==> after.components[j]->0 == (ComponentView {
                state: ComponentConnectionState::Connecting,
                selected_pair: None,
                ..stream.components[j]->0
            })
        }),
{
}

/// Clearing the selected pairs, and letting the components connect, change that
/// of every component and nothing else.
pub proof fn law_clearing_and_connecting(stream: StreamView, j: int)
    requires
        0 <= j < stream.components.len(),
    ensures
        ({
            let cleared = stream.unselected();
            let connecting = stream.connecting();
            &&& cleared == (StreamView { components: cleared.components, ..stream })
            &&& connecting == (StreamView { components: connecting.components, ..stream })
            &&& cleared.components.len() == stream.components.len()
            &&& connecting.components.len() == stream.components.len()
            &&& stream.components[j] is None ==> cleared.components[j] is None
                && connecting.components[j] is None
            &&& stream.components[j] matches Some(c) ==> {
                &&& cleared.components[j] == Some(ComponentView { selected_pair: None, ..c })
                &&& connecting.components[j] == Some(
                    ComponentView { state: ComponentConnectionState::Connecting, ..c },
                )
            }
        }),
{
}

/// The components that are reported as connecting are those that were not
/// connecting, each once, in ascending order of their ids.
pub proof fn law_idle_ids(stream: StreamView, id: usize, i: int, j: int)
    requires
        stream.wf(),
        stream.components.len() <= usize::MAX,
    ensures
        stream.idle_ids().contains(id) <==> 1 <= id <= stream.components.len()
            && stream.components[id - 1] is Some && stream.components[id - 1]->0.state
            != ComponentConnectionState::Connecting,
        0 <= i < j < stream.idle_ids().len() ==> stream.idle_ids()[i] < stream.idle_ids()[j],
{
    let idle = |slot: Option<ComponentView>| stream_state::slot_idle(slot);
    let count = stream.components.len() as int;
    stream_laws::lemma_ids(stream, idle, count);
    assert(stream.components.take(count) =~= stream.components);
    if 1 <= id <= count {
        assert(idle(stream.components[id - 1]) == stream_state::slot_idle(
            stream.components[id - 1],
        ));
    }
}

/// The ids of a stream are those of the places that hold a component, each once,
/// in ascending order.
pub proof fn law_present_ids(stream: StreamView, id: usize, i: int, j: int)
    requires
        stream.wf(),
        stream.components.len() <= usize::MAX,
    ensures
        stream.component_ids().contains(id) <==> 1 <= id <= stream.components.len()
            && stream.components[id - 1] is Some,
        0 <= i < j < stream.component_ids().len() ==> stream.component_ids()[i]
            < stream.component_ids()[j],
{
    stream_laws::law_component_ids(stream);
}

/// New timeouts reach every gatherer, whether or not it is gathering, and change
/// nothing else.
pub proof fn law_timeouts_reach_every_gatherer(stream: StreamView, rto: RequestRto, j: int)
    requires
        0 <= j < stream.components.len(),
    ensures
        ({
            let after = stream.with_rto(rto);
            let before = stream.components[j];
            &&& after == (StreamView { components: after.components, ..stream })
            &&& after.components.len() == stream.components.len()
            &&& before is None || before->0.gatherer is None ==> after.components[j] == before
            &&& before is Some && before->0.gatherer is Some ==> after.components[j] == Some(
                ComponentView {
                    gatherer: Some(GathererView { rto, ..before->0.gatherer->0 }),
                    ..before->0
                },
            )
        }),
{
}

/// The reply to a request for a socket is the newest one of the gatherer of its
/// component while that gathers, and changes nothing else.
pub proof fn law_socket_reply_in_a_stream(stream: StreamView, socket: AllocatedSocket, j: int)
    requires
        0 <= j < stream.components.len(),
    ensures
        ({
            let after = stream.with_socket(socket);
            let before = stream.components[j];
            &&& after == (StreamView { components: after.components, ..stream })
            &&& after.components.len() == stream.components.len()
            &&& j + 1 != socket.component_id || !gathering(before) ==> after.components[j]
                == before
            &&& j + 1 == socket.component_id && gathering(before) ==> after.components[j] == Some(
                ComponentView {
                    gatherer: Some(
                        GathererView {
                            allocated: before->0.gatherer->0.allocated.push(socket),
                            ..before->0.gatherer->0
                        },
                    ),
                    ..before->0
                },
            )
        }),
{
}

/// Data goes to the connectivity checks of the stream, unchanged, where its
/// component exists and no gathering process took it; where one did, the data is
/// handled; and where the component does not exist, it is not.
pub proof fn law_way_of_the_data(
    stream: StreamView,
    component_id: usize,
    transmit: Transmit,
    now: Instant,
    taken: bool,
)
    ensures
        ({
            let r = stream.route(component_id, transmit, now, taken);
            let there = 1 <= component_id <= stream.components.len()
                && stream.components[component_id - 1] is Some;
            &&& !there ==> r == IncomingStep::Reply(
                HandleRecvReply {
                    handled: false,
                    have_more_data: false,
                    data: None,
                    ignorable: None,
                },
            )
            &&& there && taken && gathering(stream.components[component_id - 1]) ==> r
                == IncomingStep::Reply(
                HandleRecvReply {
                    handled: true,
                    have_more_data: false,
                    data: None,
                    ignorable: None,
                },
            )
            &&& there && (!taken || !gathering(stream.components[component_id - 1])) ==> r == (
            IncomingStep::Checklist {
                checklist_id: stream.checklist_id,
                component_id,
                transmit,
                now,
            })
        }),
{
}

} // verus!
