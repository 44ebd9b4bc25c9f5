//! What holds of a stream over several calls.
use crate::checklist::HandleRecvReply;
use crate::component::{ComponentView, GatherProgress};
use crate::conncheck::Credentials;
use crate::gathering::{GatherPoll, RequestRto};
use crate::net::{AllocatedSocket, Transmit};
use crate::search;
use crate::stream::IncomingStep;
use crate::stream_state;
use crate::stream_state::StreamView;
use crate::time::Instant;
use vstd::prelude::*;

verus! {

/// What the lowest free place says of the places.
proof fn lemma_free_index(stream: StreamView)
    ensures
        0 <= stream.free_index() <= stream.components.len(),
        stream.free_index() < stream.components.len()
            ==> stream.components[stream.free_index()] is None,
        forall|i: int| 0 <= i < stream.free_index() ==> #[trigger] stream.components[i] is Some,
{
    let free = |slot: Option<ComponentView>| slot is None;
    search::lemma_first(stream.components, free);
    assert forall|i: int| 0 <= i < stream.free_index() implies #[trigger] stream.components[i] is
        Some by {
        assert(!free(stream.components[i]));
    }
}

/// The lowest free place, from what it says of the places.
pub proof fn lemma_is_free_index(stream: StreamView, index: int)
    requires
        0 <= index <= stream.components.len(),
        index < stream.components.len() ==> stream.components[index] is None,
        forall|i: int| 0 <= i < index ==> #[trigger] stream.components[i] is Some,
    ensures
        stream.free_index() == index,
{
    lemma_free_index(stream);
    let found = stream.free_index();
    if found < index {
        assert(stream.components[found] is Some);
    } else if index < found {
        assert(stream.components[index] is Some);
    }
}

/// A new component did not exist before, exists afterwards, has the lowest id
/// that was free, and leaves every other component as it was.
pub proof fn law_new_component(stream: StreamView, other: usize)
    requires
        stream.components.len() < usize::MAX,
    ensures
        ({
            let id = (stream.free_index() + 1) as usize;
            let after = stream.with_new_component();
            &&& stream.component(id) is None
            &&& after.component(id) == Some(ComponentView::fresh(id))
            &&& 1 <= other < id ==> stream.component(other) is Some
            &&& other != id ==> after.component(other) == stream.component(other)
        }),
{
    lemma_free_index(stream);
}

/// A removed component is gone, and every other one is as it was, under the
/// same id.
pub proof fn law_removed_component(stream: StreamView, component_id: usize, other: usize)
    ensures
        ({
            let after = stream.without_component(component_id);
            &&& after.component(component_id) is None
            &&& other != component_id ==> after.component(other) == stream.component(other)
        }),
{
}

/// The id of a removed component is given out again before any higher one.
pub proof fn law_removed_place_is_reused(stream: StreamView, component_id: usize)
    requires
        stream.component(component_id) is Some,
    ensures
        stream.without_component(component_id).free_index() == if component_id - 1
            < stream.free_index() {
            component_id - 1
        } else {
            stream.free_index()
        },
{
    lemma_free_index(stream);
    let after = stream.without_component(component_id);
    if component_id - 1 < stream.free_index() {
        lemma_is_free_index(after, component_id - 1);
    } else {
        lemma_is_free_index(after, stream.free_index());
    }
}

/// Removing a component that has just been added leaves every component as it
/// was before.
pub proof fn law_removal_undoes_addition(stream: StreamView, other: usize)
    requires
        stream.components.len() < usize::MAX,
    ensures
        ({
            let id = (stream.free_index() + 1) as usize;
            stream.with_new_component().without_component(id).component(other)
                == stream.component(other)
        }),
{
    lemma_free_index(stream);
}

/// Every operation keeps the components in their places.
pub proof fn law_components_stay_in_place(
    stream: StreamView,
    component_id: usize,
    local_credentials: Credentials,
    rto: RequestRto,
    socket: AllocatedSocket,
    now: Instant,
)
    requires
        stream.wf(),
    ensures
        stream.components.len() < usize::MAX ==> stream.with_new_component().wf(),
        stream.without_component(component_id).wf(),
        stream.restarted(local_credentials).wf(),
        stream.with_rto(rto).wf(),
        stream.with_socket(socket).wf(),
        stream.gather_polled(now).wf(),
        stream.gather_transmitted(now).wf(),
{
    lemma_free_index(stream);
    search::lemma_first(
        stream.components,
        |slot: Option<ComponentView>| stream_state::slot_reports(slot, now),
    );
    search::lemma_first(
        stream.components,
        |slot: Option<ComponentView>| stream_state::slot_sends(slot, now),
    );
}

/// The ids of the components that pass a test, among the first places.
pub proof fn lemma_ids(stream: StreamView, p: spec_fn(Option<ComponentView>) -> bool, count: int)
    requires
        stream.wf(),
        stream.components.len() <= usize::MAX,
        0 <= count <= stream.components.len(),
        forall|slot: Option<ComponentView>| #[trigger] p(slot) ==> slot is Some,
    ensures
        ({
            let ids = stream.components.take(count).filter(p).map_values(
                |slot: Option<ComponentView>| slot->0.id,
            );
            &&& forall|i: int, j: int| 0 <= i < j < ids.len() ==> ids[i] < ids[j]
            &&& forall|i: int| 0 <= i < ids.len() ==> 1 <= #[trigger] ids[i] <= count
            &&& forall|id: usize| #[trigger]
                ids.contains(id) <==> 1 <= id <= count && p(stream.components[id - 1])
        }),
    decreases count,
{
    let id_of = |slot: Option<ComponentView>| slot->0.id;
    let ids = stream.components.take(count).filter(p).map_values(id_of);
    if count == 0 {
        reveal(Seq::filter);
        assert(ids =~= Seq::empty());
    } else {
        let fewer = stream.components.take(count - 1).filter(p).map_values(id_of);
        let slot = stream.components[count - 1];
        lemma_ids(stream, p, count - 1);
        search::lemma_filter_step(stream.components, p, count - 1);
        if p(slot) {
            assert(ids =~= fewer.push(count as usize));
            assert(ids[ids.len() - 1] == count);
        } else {
            assert(ids =~= fewer);
        }
        assert forall|id: usize| #[trigger] ids.contains(id) <==> 1 <= id <= count && p(
            stream.components[id - 1],
        ) by {
            if fewer.contains(id) {
                let k = fewer.index_of(id);
                assert(ids[k] == id);
            }
            if ids.contains(id) {
                let k = ids.index_of(id);
                if k < fewer.len() {
                    assert(fewer[k] == id);
                }
            }
        }
    }
}

/// The ids of a stream are those of its components, each once, in ascending
/// order.
pub proof fn law_component_ids(stream: StreamView)
    requires
        stream.wf(),
        stream.components.len() <= usize::MAX,
    ensures
        forall|id: usize| #[trigger]
            stream.component_ids().contains(id) <==> stream.component(id) is Some,
        forall|i: int, j: int|
            0 <= i < j < stream.component_ids().len() ==> stream.component_ids()[i]
                < stream.component_ids()[j],
{
    let present = |slot: Option<ComponentView>| slot is Some;
    lemma_ids(stream, present, stream.components.len() as int);
    assert(stream.components.take(stream.components.len() as int) =~= stream.components);
    assert forall|id: usize| #[trigger]
        stream.component_ids().contains(id) <==> stream.component(id) is Some by {
        if 1 <= id <= stream.components.len() {
            assert(present(stream.components[id - 1]) == (stream.component(id) is Some));
        }
    }
}

/// A restart keeps the components in their places.
proof fn lemma_restarted_places(
    stream: StreamView,
    local_credentials: Credentials,
)
    requires
        stream.wf(),
    ensures
        stream.restarted(local_credentials).wf(),
        stream.restarted(local_credentials).components.len() == stream.components.len(),
{
}

/// A restart reports exactly the components that were not connecting, and
/// leaves none that another restart would report.
pub proof fn law_restart_connects_every_component(
    stream: StreamView,
    local_credentials: Credentials,
    id: usize,
)
    requires
        stream.wf(),
        stream.components.len() <= usize::MAX,
    ensures
        stream.idle_ids().contains(id) <==> stream_state::slot_idle(stream.component(id)),
        stream.restarted(local_credentials).idle_ids().len() == 0,
        stream.restarted(local_credentials).component(id) is Some <==> stream.component(id) is Some,
{
    let idle = |slot: Option<ComponentView>| stream_state::slot_idle(slot);
    let count = stream.components.len() as int;
    lemma_ids(stream, idle, count);
    assert(stream.components.take(count) =~= stream.components);
    if 1 <= id <= count {
        assert(idle(stream.components[id - 1]) == stream_state::slot_idle(stream.component(id)));
    }
    let after = stream.restarted(local_credentials);
    lemma_restarted_places(stream, local_credentials);
    lemma_ids(after, idle, count);
    assert(after.components.take(count) =~= after.components);
    if after.idle_ids().len() > 0 {
        let first = after.idle_ids()[0];
        assert(after.idle_ids().contains(first));
        assert(idle(after.components[first - 1]));
    }
}

/// A poll of the gathering processes changes at most one component.
pub proof fn law_gather_poll_changes_one_component(stream: StreamView, now: Instant, other: int)
    requires
        0 <= other < stream.components.len(),
        stream.first_reporting(now) != Some(other),
    ensures
        stream.gather_polled(now).components[other] == stream.components[other],
        stream.gather_polled(now).components.len() == stream.components.len(),
{
    search::lemma_first(
        stream.components,
        |slot: Option<ComponentView>| stream_state::slot_reports(slot, now),
    );
}

/// Between a poll that says how long to wait and the end of that time no
/// gathering process has anything to report or to send; at the end one has.
pub proof fn law_gather_wait_is_exact(
    stream: StreamView,
    now: Instant,
    wait: Instant,
    time: Instant,
)
    requires
        stream.gather_answers(now, GatherPoll::WaitUntil(wait)),
    ensures
        time.nanos < wait.nanos ==> stream.first_reporting(time) is None && stream.first_sending(
            time,
        ) is None,
        time.nanos == wait.nanos ==> stream.first_reporting(time) is Some || stream.first_sending(
            time,
        ) is Some,
{
    let reports_now = |slot: Option<ComponentView>| stream_state::slot_reports(slot, now);
    search::lemma_first(stream.components, reports_now);
    if let Some(i) = stream.first_reporting(now) {
        assert(stream_state::slot_reports(stream.components[i], now));
        assert(false);
    }
    let reports = |slot: Option<ComponentView>| stream_state::slot_reports(slot, time);
    let sends = |slot: Option<ComponentView>| stream_state::slot_sends(slot, time);
    if time.nanos < wait.nanos {
        assert forall|j: int|
            #![trigger stream.components[j]]
            0 <= j < stream.components.len() implies !reports(stream.components[j]) && !sends(
            stream.components[j],
        ) by {
            let wake = stream_state::slot_wake(stream.components[j]);
            assert(wake matches Some(w) ==> wait.nanos <= w.nanos);
        }
        search::lemma_first_absent(stream.components, reports);
        search::lemma_first_absent(stream.components, sends);
    } else if time.nanos == wait.nanos {
        let i = choose|i: int|
            0 <= i < stream.components.len() && #[trigger] stream_state::slot_wake(
                stream.components[i],
            ) == Some(wait);
        assert(reports(stream.components[i]) || sends(stream.components[i]));
        if reports(stream.components[i]) {
            search::lemma_first_exists(stream.components, reports, i);
        } else {
            search::lemma_first_exists(stream.components, sends, i);
        }
    }
}

/// A component that has reported completion does not report or send anything
/// any more.
pub proof fn law_completed_gathering_is_silent(
    stream: StreamView,
    now: Instant,
    r: GatherPoll,
    later: Instant,
)
    requires
        stream.gather_answers(now, r),
        r is Complete,
    ensures
        ({
            let i = stream.first_reporting(now)->0;
            let slot = stream.gather_polled(now).components[i];
            &&& stream.first_reporting(now) is Some
            &&& 0 <= i < stream.components.len()
            &&& slot->0.gather_state == GatherProgress::Completed
            &&& !stream_state::slot_reports(slot, later)
            &&& !stream_state::slot_sends(slot, later)
        }),
{
    search::lemma_first(
        stream.components,
        |slot: Option<ComponentView>| stream_state::slot_reports(slot, now),
    );
}

/// Data that no gathering process takes goes to the connectivity checks if the
/// component exists, and is left unhandled if not.
pub proof fn law_untaken_data_reaches_the_checks(
    stream: StreamView,
    component_id: usize,
    transmit: Transmit,
    now: Instant,
)
    ensures
        stream.route(component_id, transmit, now, false) == if stream.component(component_id)
            is Some {
            IncomingStep::Checklist {
                checklist_id: stream.checklist_id,
                component_id,
                transmit,
                now,
            }
        } else {
            IncomingStep::Reply(HandleRecvReply::bare(false))
        },
{
}

/// Where no candidates are being gathered, the reply of a gathering process
/// makes no difference.
pub proof fn law_idle_gatherer_takes_nothing(
    stream: StreamView,
    component_id: usize,
    transmit: Transmit,
    now: Instant,
)
    requires
        !stream.gathers(component_id),
    ensures
        stream.route(component_id, transmit, now, true) == stream.route(
            component_id,
            transmit,
            now,
            false,
        ),
{
}

} // verus!
