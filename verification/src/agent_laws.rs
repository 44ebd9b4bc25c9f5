//! What holds of an agent and its streams over several calls.
use crate::agent;
use crate::agent::{AgentEvent, AgentView};
use crate::candidate;
use crate::candidate::{Candidate, CandidateType};
use crate::checklist;
use crate::checklist::{CheckListView, PendingRecv};
use crate::conncheck::Credentials;
use crate::consent::Entry;
use crate::gathering::Timed;
use crate::net::AllocatedSocket;
use crate::search;
use crate::stream_laws;
use crate::stream_state::StreamView;
use crate::time::Instant;
use vstd::prelude::*;

verus! {

/// Whether nothing of another stream differs.
pub open spec fn same_stream(before: AgentView, after: AgentView, stream_id: usize) -> bool {
    &&& after.has_stream(stream_id)
    &&& after.stream(stream_id) == before.stream(stream_id)
    &&& after.list(stream_id) == before.list(stream_id)
}

/// A change of a stream or of its check list leaves the other streams as they
/// were, and the agent well-formed.
pub proof fn law_changes_are_local(
    agent: AgentView,
    stream_id: usize,
    stream: StreamView,
    list: CheckListView,
    other: usize,
)
    requires
        agent.wf(),
        agent.has_stream(stream_id),
        agent.has_stream(other),
        other != stream_id,
        stream.wf(),
        stream.id == stream_id,
        stream.checklist_id == agent.stream(stream_id).checklist_id,
    ensures
        ({
            let after = agent.with_stream(stream_id, stream).with_list(stream_id, list);
            &&& after.wf()
            &&& after.stream(stream_id) == stream
            &&& after.list(stream_id) == list
            &&& same_stream(agent, after, other)
        }),
{
    assert(agent.streams[stream_id as int].checklist_id
        != agent.streams[other as int].checklist_id);
}

/// A restart keeps the local candidates of the stream.
pub proof fn law_restart_keeps_local_candidates(
    agent: AgentView,
    stream_id: usize,
    local_credentials: Credentials,
    now: Instant,
)
    requires
        agent.wf(),
        agent.has_stream(stream_id),
    ensures
        agent.restarted(stream_id, local_credentials, now).list(stream_id).local_candidates
            == agent.list(stream_id).local_candidates,
{
}

/// A restart takes no socket away: it reports changes of state only.
pub proof fn law_restart_keeps_sockets(
    agent: AgentView,
    stream_id: usize,
    local_credentials: Credentials,
    now: Instant,
    i: int,
)
    requires
        agent.has_stream(stream_id),
        agent.events.len() <= i < agent.restarted(
            stream_id,
            local_credentials,
            now,
        ).events.len(),
    ensures
        agent.restarted(stream_id, local_credentials, now).events[i] is ComponentStateChange,
        agent.restarted(stream_id, local_credentials, now).events.take(agent.events.len() as int)
            == agent.events,
{
    assert(agent.restarted(stream_id, local_credentials, now).events.take(
        agent.events.len() as int,
    ) =~= agent.events);
}

/// After a restart the stream and its check list have the new local
/// credentials and none of the peer, whose candidates are gone, and both sides
/// may add candidates again.
pub proof fn law_restart_forgets_the_peer(
    agent: AgentView,
    stream_id: usize,
    local_credentials: Credentials,
    now: Instant,
)
    requires
        agent.wf(),
        agent.has_stream(stream_id),
    ensures
        ({
            let after = agent.restarted(stream_id, local_credentials, now);
            &&& after.stream(stream_id).local_credentials == Some(local_credentials)
            &&& after.stream(stream_id).remote_credentials is None
            &&& after.list(stream_id).local_credentials == local_credentials
            &&& after.list(stream_id).remote_credentials is None
            &&& after.list(stream_id).remote_candidates.len() == 0
            &&& !after.list(stream_id).local_end_of_candidates
            &&& !after.list(stream_id).remote_end_of_candidates
        }),
{
}

/// A restart ends the monitoring of consent for every component of the stream
/// and for no component of another stream.
pub proof fn law_restart_ends_consent(
    agent: AgentView,
    stream_id: usize,
    local_credentials: Credentials,
    now: Instant,
    entry: Entry,
)
    requires
        agent.wf(),
        agent.has_stream(stream_id),
        agent.stream(stream_id).components.len() <= usize::MAX,
        agent.consent is Some,
    ensures
        ({
            let before = agent.consent->0.entries;
            let after = agent.restarted(stream_id, local_credentials, now).consent->0.entries;
            &&& after.contains(entry) ==> before.contains(entry)
            &&& after.contains(entry) ==> !(entry.stream_id == stream_id && agent.stream(
                stream_id,
            ).component(entry.component_id) is Some)
            &&& before.contains(entry) && entry.stream_id != stream_id ==> after.contains(entry)
        }),
{
    let ids = agent.stream(stream_id).component_ids();
    let keep = |e: Entry| e.stream_id != stream_id || !ids.contains(e.component_id);
    let before = agent.consent->0.entries;
    stream_laws::law_component_ids(agent.stream(stream_id));
    search::lemma_filtered(before, keep, entry);
}

/// A restart leaves the other streams as they were.
pub proof fn law_restart_is_local(
    agent: AgentView,
    stream_id: usize,
    local_credentials: Credentials,
    now: Instant,
    other: usize,
)
    requires
        agent.wf(),
        agent.has_stream(other),
        other != stream_id,
    ensures
        same_stream(agent, agent.restarted(stream_id, local_credentials, now), other),
{
    if agent.has_stream(stream_id) {
        assert(agent.streams[stream_id as int].checklist_id
            != agent.streams[other as int].checklist_id);
    }
}

/// A removed component leaves nothing behind: neither its state, nor a
/// candidate, nor application data, nor consent.
pub proof fn law_removed_component_leaves_nothing(
    agent: AgentView,
    stream_id: usize,
    component_id: usize,
    c: Candidate,
    data: PendingRecv,
    entry: Entry,
)
    requires
        agent.wf(),
        agent.has_stream(stream_id),
        agent.stream(stream_id).has_place(component_id),
        c.component_id == component_id,
        data.component_id == component_id,
        entry.tracks(stream_id, component_id),
    ensures
        ({
            let after = agent.without_component(stream_id, component_id);
            &&& after.stream(stream_id).component(component_id) is None
            &&& !after.list(stream_id).component_ids.contains(component_id)
            &&& !after.list(stream_id).local_candidates.contains(c)
            &&& !after.list(stream_id).remote_candidates.contains(c)
            &&& !after.list(stream_id).pending_recv.contains(data)
            &&& after.consent matches Some(consent) ==> !consent.entries.contains(entry)
        }),
{
    let list = agent.list(stream_id);
    let other_candidate = |c: Candidate| c.component_id != component_id;
    search::lemma_filtered(
        list.component_ids,
        checklist::other_than(component_id),
        component_id,
    );
    search::lemma_filtered(list.local_candidates, other_candidate, c);
    search::lemma_filtered(list.remote_candidates, other_candidate, c);
    search::lemma_filtered(
        list.pending_recv,
        |p: PendingRecv| p.component_id != component_id,
        data,
    );
    if let Some(consent) = agent.consent {
        search::lemma_filtered(
            consent.entries,
            |e: Entry| !e.tracks(stream_id, component_id),
            entry,
        );
    }
}

/// Every socket behind a host candidate of a removed component is reported,
/// once for each such candidate, and no other one is.
pub proof fn law_removed_component_gives_back_sockets(
    agent: AgentView,
    stream_id: usize,
    component_id: usize,
    c: Candidate,
    event: AgentEvent,
)
    requires
        agent.wf(),
        agent.has_stream(stream_id),
        agent.stream(stream_id).has_place(component_id),
    ensures
        ({
            let news = agent.removals(stream_id, component_id);
            let candidates = agent.list(stream_id).local_candidates;
            &&& agent.without_component(stream_id, component_id).events == agent.events + news
            &&& news.len() == candidates.filter(
                |c: Candidate| agent::is_socket_of(c, component_id),
            ).len()
            &&& candidates.contains(c) && c.component_id == component_id && c.candidate_type
                == CandidateType::Host ==> news.contains(agent::removal(stream_id, c))
            &&& news.contains(event) ==> exists|c: Candidate| #[trigger]
                candidates.contains(c) && agent::is_socket_of(c, component_id) && event
                    == agent::removal(stream_id, c)
        }),
{
    let socket = |c: Candidate| agent::is_socket_of(c, component_id);
    let candidates = agent.list(stream_id).local_candidates;
    let sockets = candidates.filter(socket);
    let news = agent.removals(stream_id, component_id);
    search::lemma_filtered(candidates, socket, c);
    if sockets.contains(c) {
        let k = sockets.index_of(c);
        assert(news[k] == agent::removal(stream_id, c));
    }
    if news.contains(event) {
        let k = news.index_of(event);
        assert(sockets.contains(sockets[k]));
        search::lemma_filtered(candidates, socket, sockets[k]);
        assert(candidates.contains(sockets[k]));
    }
}

/// Removing a component keeps the candidates of the other components of the
/// stream, and leaves the other streams as they were.
pub proof fn law_removal_is_local(
    agent: AgentView,
    stream_id: usize,
    component_id: usize,
    c: Candidate,
    other: usize,
)
    requires
        agent.wf(),
        agent.has_stream(stream_id),
        c.component_id != component_id,
        agent.has_stream(other),
        other != stream_id,
    ensures
        ({
            let after = agent.without_component(stream_id, component_id);
            &&& after.list(stream_id).local_candidates.contains(c) == agent.list(
                stream_id,
            ).local_candidates.contains(c)
            &&& after.list(stream_id).remote_candidates.contains(c) == agent.list(
                stream_id,
            ).remote_candidates.contains(c)
            &&& same_stream(agent, after, other)
        }),
{
    let list = agent.list(stream_id);
    let other_candidate = |c: Candidate| c.component_id != component_id;
    search::lemma_filtered(list.local_candidates, other_candidate, c);
    search::lemma_filtered(list.remote_candidates, other_candidate, c);
    assert(agent.streams[stream_id as int].checklist_id
        != agent.streams[other as int].checklist_id);
}

/// Credentials that are set for a stream are those that the stream and its
/// check list have afterwards, and a change of one side keeps the other.
pub proof fn law_credentials_are_shared(
    agent: AgentView,
    stream_id: usize,
    local: Credentials,
    remote: Credentials,
)
    requires
        agent.wf(),
        agent.has_stream(stream_id),
    ensures
        ({
            let first = agent.with_local_credentials(stream_id, local);
            let second = first.with_remote_credentials(stream_id, remote);
            &&& second.stream(stream_id).local_credentials == Some(local)
            &&& second.list(stream_id).local_credentials == local
            &&& second.stream(stream_id).remote_credentials == Some(remote)
            &&& second.list(stream_id).remote_credentials == Some(remote)
        }),
{
}

/// The reply to a request for a socket reaches the check list of its stream,
/// whether or not candidates are still being gathered, and the gathering
/// process only while they are.
pub proof fn law_socket_reaches_the_check_list(
    agent: AgentView,
    stream_id: usize,
    socket: AllocatedSocket,
    now: Instant,
)
    requires
        agent.wf(),
        agent.has_stream(stream_id),
        agent.stream(stream_id).component(socket.component_id) is Some,
    ensures
        ({
            let after = agent.with_socket(stream_id, socket, now);
            &&& after.list(stream_id).allocated == agent.list(stream_id).allocated.push(
                Timed { at: now, item: socket },
            )
            &&& !agent.stream(stream_id).gathers(socket.component_id) ==> after.stream(stream_id)
                == agent.stream(stream_id)
            &&& agent.stream(stream_id).gathers(socket.component_id) ==> after.stream(
                stream_id,
            ).component(socket.component_id)->0.gatherer->0.allocated == agent.stream(
                stream_id,
            ).component(socket.component_id)->0.gatherer->0.allocated.push(socket)
        }),
{
}

/// A candidate of the peer that has been added can be read back, behind those
/// that were there before.
pub proof fn law_remote_candidate_is_read_back(list: CheckListView, c: Candidate)
    ensures
        list.with_remote_candidate(c).remote_candidates.last() == c,
        list.with_remote_candidate(c).remote_candidates.drop_last() == list.remote_candidates,
{
    assert(list.with_remote_candidate(c).remote_candidates.drop_last() =~= list.remote_candidates);
}

/// A local candidate is added once: after it has been added, or refused, there
/// is one for its path.
pub proof fn law_local_candidate_is_added_once(list: CheckListView, c: Candidate)
    ensures
        list.with_local_candidate(c).has_redundant(c),
        list.with_local_candidate(c).with_local_candidate(c) == list.with_local_candidate(c),
        !list.has_redundant(c) ==> list.with_local_candidate(c).local_candidates.last() == c,
{
    if !list.has_redundant(c) {
        let after = list.with_local_candidate(c).local_candidates;
        assert(candidate::redundant(after[after.len() - 1], c));
    }
}

} // verus!
