//! What each call does to an agent, its streams and their check lists, field by
//! field.
use crate::agent;
use crate::agent::{Agent, AgentComponentStateChange, AgentEvent, AgentSocket, AgentView};
use crate::candidate::{Candidate, CandidateType};
use crate::checklist;
use crate::checklist::{CheckListView, ConnCheckList, ConnCheckListSet, PendingRecv};
use crate::component::ComponentConnectionState;
use crate::conncheck::Credentials;
use crate::consent::Entry;
use crate::consent_effects;
use crate::gathering::Timed;
use crate::net::AllocatedSocket;
use crate::search;
use crate::secret;
use crate::stream::StreamMut;
use crate::stream_effects;
use crate::stream_state::StreamView;
use crate::time::Instant;
use vstd::prelude::*;

verus! {

/// The view of a check list shows every field.
pub proof fn law_check_list_is_seen_whole(list: ConnCheckList)
    ensures
        list@.component_ids == list.component_ids@,
        list@.local_credentials == list.local_credentials,
        list@.remote_credentials == list.remote_credentials,
        list@.local_candidates == list.local_candidates@,
        list@.remote_candidates == list.remote_candidates@,
        list@.local_end_of_candidates == list.local_end_of_candidates,
        list@.remote_end_of_candidates == list.remote_end_of_candidates,
        list@.restarted_at == list.restarted_at,
        list@.pending_recv == list.pending_recv@,
        list@.allocated == list.allocated@,
{
}

/// The view of a set of check lists shows every list and every queued error.
pub proof fn law_check_lists_are_seen_whole(set: ConnCheckListSet, i: int)
    requires
        0 <= i < set.lists@.len(),
    ensures
        set@.lists.len() == set.lists@.len(),
        set@.lists[i] == set.lists@[i]@,
        set@.ignorable == set.ignorable@,
{
}

/// The view of an agent shows every stream, the check lists, the consent
/// freshness process and the events.
pub proof fn law_agent_is_seen_whole(agent: Agent, i: int)
    requires
        0 <= i < agent.streams@.len(),
    ensures
        agent@.streams.len() == agent.streams@.len(),
        agent@.streams[i] == agent.streams@[i]@,
        agent@.checklists == agent.checklistset@,
        agent@.events == agent.events@,
        agent@.consent is Some <==> agent.consent_freshness is Some,
        agent.consent_freshness matches Some(c) ==> agent@.consent->0 == c@,
{
}

/// A handle for changes shows the agent that it changes, and is valid exactly
/// where that is well-formed and has the stream.
pub proof fn law_handle_shows_its_agent(handle: StreamMut, agent: Agent)
    requires
        *handle.agent == agent,
    ensures
        handle.state() == agent@,
        handle.valid() <==> agent@.wf() && handle.id < agent@.streams.len(),
{
}

/// An agent is well-formed exactly where every stream stands at the index that
/// is its id, has its components in their places, and has a check list that no
/// other stream has.
pub proof fn law_well_formed_agent(agent: AgentView)
    ensures
        agent.wf() <==> {
            &&& forall|i: int|
                #![trigger agent.streams[i]]
                0 <= i < agent.streams.len() ==> agent.streams[i].id == i
                    && agent.streams[i].wf() && agent.streams[i].checklist_id
                    < agent.checklists.lists.len()
            &&& forall|i: int, j: int|
                #![trigger agent.streams[i], agent.streams[j]]
                0 <= i < agent.streams.len() && 0 <= j < agent.streams.len() && i != j
                    ==> agent.streams[i].checklist_id != agent.streams[j].checklist_id
        },
{
}

/// The stream with id `n` is the one at index `n`, and its check list is the one
/// that the stream names.
pub proof fn law_stream_lookup(agent: AgentView, stream_id: usize)
    ensures
        agent.has_stream(stream_id) <==> stream_id < agent.streams.len(),
        agent.stream(stream_id) == agent.streams[stream_id as int],
        agent.list(stream_id)
            == agent.checklists.lists[agent.streams[stream_id as int].checklist_id as int],
{
}

/// Replacing a stream, or its check list, changes that one alone.
pub proof fn law_replacement(
    agent: AgentView,
    stream_id: usize,
    stream: StreamView,
    list: CheckListView,
    j: int,
)
    requires
        agent.wf(),
        stream_id < agent.streams.len(),
    ensures
        ({
            let after = agent.with_stream(stream_id, stream);
            &&& after == (AgentView { streams: after.streams, ..agent })
            &&& after.streams.len() == agent.streams.len()
            &&& 0 <= j < agent.streams.len() ==> after.streams[j] == if j == stream_id {
                stream
            } else {
                agent.streams[j]
            }
        }),
        ({
            let after = agent.with_list(stream_id, list);
            &&& after.streams == agent.streams
            &&& after.consent == agent.consent
            &&& after.events == agent.events
            &&& after.checklists.ignorable == agent.checklists.ignorable
            &&& after.checklists.lists.len() == agent.checklists.lists.len()
            &&& 0 <= j < agent.checklists.lists.len() ==> after.checklists.lists[j] == if j
                == agent.streams[stream_id as int].checklist_id {
                list
            } else {
                agent.checklists.lists[j]
            }
        }),
{
}

/// Setting credentials sets them in the stream and in its check list, and changes
/// nothing else of the two.
pub proof fn law_credentials_are_set(
    agent: AgentView,
    stream_id: usize,
    credentials: Credentials,
)
    requires
        agent.wf(),
        stream_id < agent.streams.len(),
    ensures
        ({
            let i = stream_id as int;
            let l = agent.streams[i].checklist_id as int;
            let after = agent.with_local_credentials(stream_id, credentials);
            &&& after.streams[i] == (StreamView {
                local_credentials: Some(credentials),
                ..agent.streams[i]
            })
            &&& after.checklists.lists[l] == (CheckListView {
                local_credentials: credentials,
                ..agent.checklists.lists[l]
            })
            &&& after.events == agent.events && after.consent == agent.consent
        }),
        ({
            let i = stream_id as int;
            let l = agent.streams[i].checklist_id as int;
            let after = agent.with_remote_credentials(stream_id, credentials);
            &&& after.streams[i] == (StreamView {
                remote_credentials: Some(credentials),
                ..agent.streams[i]
            })
            &&& after.checklists.lists[l] == (CheckListView {
                remote_credentials: Some(credentials),
                ..agent.checklists.lists[l]
            })
            &&& after.events == agent.events && after.consent == agent.consent
        }),
{
}

/// Setting credentials leaves every other stream and check list as it was.
pub proof fn law_credentials_stay_with_their_stream(
    agent: AgentView,
    stream_id: usize,
    credentials: Credentials,
    j: int,
)
    requires
        agent.wf(),
        stream_id < agent.streams.len(),
    ensures
        ({
            let first = agent.with_local_credentials(stream_id, credentials);
            let second = agent.with_remote_credentials(stream_id, credentials);
            let l = agent.streams[stream_id as int].checklist_id;
            &&& first.streams.len() == agent.streams.len()
            &&& second.streams.len() == agent.streams.len()
            &&& 0 <= j < agent.streams.len() && j != stream_id ==> first.streams[j]
                == agent.streams[j] && second.streams[j] == agent.streams[j]
            &&& first.checklists.lists.len() == agent.checklists.lists.len()
            &&& second.checklists.lists.len() == agent.checklists.lists.len()
            &&& 0 <= j < agent.checklists.lists.len() && j != l ==> first.checklists.lists[j]
                == agent.checklists.lists[j] && second.checklists.lists[j]
                == agent.checklists.lists[j]
            &&& first.checklists.ignorable == agent.checklists.ignorable
            &&& second.checklists.ignorable == agent.checklists.ignorable
        }),
{
}

/// A new check list is empty in every field.
pub proof fn law_new_check_list_is_empty(list: CheckListView)
    ensures
        list.is_new() <==> {
            &&& list.component_ids.len() == 0
            &&& list.local_credentials.ufrag@.len() == 0
            &&& list.local_credentials.passwd@.len() == 0
            &&& list.remote_credentials is None
            &&& list.local_candidates.len() == 0
            &&& list.remote_candidates.len() == 0
            &&& list.local_end_of_candidates == false
            &&& list.remote_end_of_candidates == false
            &&& list.restarted_at is None
            &&& list.pending_recv.len() == 0
            &&& list.allocated.len() == 0
        },
{
}

/// A component is listed once, behind those that are there.
pub proof fn law_component_is_listed(list: CheckListView, component_id: usize)
    ensures
        list.component_ids.contains(component_id) ==> list.with_component(component_id) == list,
        !list.component_ids.contains(component_id) ==> list.with_component(component_id) == (
        CheckListView { component_ids: list.component_ids.push(component_id), ..list }),
{
}

/// A local candidate is refused exactly where one with the same component,
/// transport, address and base is there; otherwise it is put behind the others,
/// and nothing else changes.
pub proof fn law_local_candidate(list: CheckListView, c: Candidate)
    ensures
        list.has_redundant(c) <==> exists|i: int|
            #![trigger list.local_candidates[i]]
            0 <= i < list.local_candidates.len() && {
                let other = list.local_candidates[i];
                &&& other.component_id == c.component_id
                &&& other.transport_type == c.transport_type
                &&& other.address == c.address
                &&& other.base_address == c.base_address
            },
        list.has_redundant(c) ==> list.with_local_candidate(c) == list,
        !list.has_redundant(c) ==> list.with_local_candidate(c) == (CheckListView {
            local_candidates: list.local_candidates.push(c),
            ..list
        }),
{
}

/// A candidate of the peer is put behind the others, received data is taken from
/// the front, a reply is put behind the others with its time, and nothing else
/// changes.
pub proof fn law_queues_of_a_check_list(
    list: CheckListView,
    c: Candidate,
    socket: AllocatedSocket,
    now: Instant,
)
    ensures
        list.with_remote_candidate(c) == (CheckListView {
            remote_candidates: list.remote_candidates.push(c),
            ..list
        }),
        list.pending_recv.len() == 0 ==> list.received() == list,
        list.pending_recv.len() > 0 ==> list.received() == (CheckListView {
            pending_recv: list.pending_recv.skip(1),
            ..list
        }),
        list.with_socket(socket, now) == (CheckListView {
            allocated: list.allocated.push(Timed { at: now, item: socket }),
            ..list
        }),
{
    if list.pending_recv.len() > 0 {
        assert(list.received().pending_recv =~= list.pending_recv.skip(1));
    }
}

/// A check list without a component keeps exactly what belongs to the others, in
/// order, and every other field.
pub proof fn law_check_list_without_a_component(
    list: CheckListView,
    component_id: usize,
    id: usize,
    c: Candidate,
    data: PendingRecv,
)
    ensures
        ({
            let after = list.without_component(component_id);
            &&& after == (CheckListView {
                component_ids: after.component_ids,
                local_candidates: after.local_candidates,
                remote_candidates: after.remote_candidates,
                pending_recv: after.pending_recv,
                ..list
            })
            &&& after.component_ids.contains(id) <==> list.component_ids.contains(id) && id
                != component_id
            &&& after.local_candidates == list.local_candidates.filter(
                |c: Candidate| c.component_id != component_id,
            )
            &&& after.local_candidates.contains(c) <==> list.local_candidates.contains(c)
                && c.component_id != component_id
            &&& after.remote_candidates == list.remote_candidates.filter(
                |c: Candidate| c.component_id != component_id,
            )
            &&& after.remote_candidates.contains(c) <==> list.remote_candidates.contains(c)
                && c.component_id != component_id
            &&& after.pending_recv == list.pending_recv.filter(
                |p: PendingRecv| p.component_id != component_id,
            )
            &&& after.pending_recv.contains(data) <==> list.pending_recv.contains(data)
                && data.component_id != component_id
        }),
{
    let other = |c: Candidate| c.component_id != component_id;
    search::lemma_filtered(
        list.component_ids,
        checklist::other_than(component_id),
        id,
    );
    search::lemma_filtered(list.local_candidates, other, c);
    search::lemma_filtered(list.remote_candidates, other, c);
    search::lemma_filtered(
        list.pending_recv,
        |p: PendingRecv| p.component_id != component_id,
        data,
    );
}

/// A restarted check list has the new local credentials and the time of the
/// restart, knows nothing of the peer, and lets both sides add candidates again;
/// every other field is as it was.
pub proof fn law_restarted_check_list(
    list: CheckListView,
    local_credentials: Credentials,
    now: Instant,
)
    ensures
        ({
            let after = list.restarted(local_credentials, now);
            &&& after.component_ids == list.component_ids
            &&& after.local_credentials == local_credentials
            &&& after.remote_credentials is None
            &&& after.local_candidates == list.local_candidates
            &&& after.remote_candidates.len() == 0
            &&& after.local_end_of_candidates == false
            &&& after.remote_end_of_candidates == false
            &&& after.restarted_at == Some(now)
            &&& after.pending_recv == list.pending_recv
            &&& after.allocated == list.allocated
        }),
{
}

/// A restart of a stream restarts its state and its check list, stops consent
/// for its components alone, and reports, behind the events that are there, each
/// component that was not connecting.  No other stream or check list changes,
/// and where there is no such stream nothing does.
pub proof fn law_restart_of_an_agent(
    agent: AgentView,
    stream_id: usize,
    local_credentials: Credentials,
    now: Instant,
    j: int,
    e: Entry,
)
    requires
        agent.wf(),
        stream_id < agent.streams.len() ==> agent.streams[stream_id as int].components.len()
            <= usize::MAX,
    ensures
        ({
            let after = agent.restarted(stream_id, local_credentials, now);
            let stream = agent.streams[stream_id as int];
            let l = stream.checklist_id as int;
            &&& stream_id >= agent.streams.len() ==> after == agent
            &&& stream_id < agent.streams.len() ==> {
                &&& after.streams.len() == agent.streams.len()
                &&& 0 <= j < agent.streams.len() ==> after.streams[j] == if j == stream_id {
                    stream.restarted(local_credentials)
                } else {
                    agent.streams[j]
                }
                &&& after.checklists.ignorable == agent.checklists.ignorable
                &&& after.checklists.lists.len() == agent.checklists.lists.len()
                &&& 0 <= j < agent.checklists.lists.len() ==> after.checklists.lists[j] == if j
                    == l {
                    agent.checklists.lists[l].restarted(local_credentials, now)
                } else {
                    agent.checklists.lists[j]
                }
                &&& after.consent is Some <==> agent.consent is Some
                &&& agent.consent is Some ==> {
                    &&& after.consent->0.config == agent.consent->0.config
                    &&& after.consent->0.entries.contains(e)
                        <==> agent.consent->0.entries.contains(e) && !(e.stream_id == stream_id
                        && 1 <= e.component_id <= stream.components.len()
                        && stream.components[e.component_id - 1] is Some)
                }
                &&& after.events.len() == agent.events.len() + stream.idle_ids().len()
                &&& 0 <= j < agent.events.len() ==> after.events[j] == agent.events[j]
                &&& 0 <= j < stream.idle_ids().len() ==> after.events[agent.events.len() + j]
                    == AgentEvent::ComponentStateChange(
                    AgentComponentStateChange {
                        stream_id,
                        component_id: stream.idle_ids()[j],
                        state: ComponentConnectionState::Connecting,
                    },
                )
            }
        }),
{
    if stream_id < agent.streams.len() && agent.consent is Some {
        let stream = agent.streams[stream_id as int];
        stream_effects::law_present_ids(stream, e.component_id, 0, 0);
        consent_effects::law_stop_all_keeps_the_others(
            agent.consent->0,
            stream_id,
            stream.component_ids(),
            e,
        );
    }
}

/// Removing a component takes it out of its stream and of the check list of that
/// stream and stops its consent.  No other stream or check list changes, and
/// where there is no place for the component nothing does.
pub proof fn law_removal_from_an_agent(
    agent: AgentView,
    stream_id: usize,
    component_id: usize,
    j: int,
)
    requires
        agent.wf(),
    ensures
        ({
            let after = agent.without_component(stream_id, component_id);
            let stream = agent.streams[stream_id as int];
            let l = stream.checklist_id as int;
            let there = stream_id < agent.streams.len() && 1 <= component_id
                <= stream.components.len();
            &&& !there ==> after == agent
            &&& there ==> {
                &&& after.streams.len() == agent.streams.len()
                &&& 0 <= j < agent.streams.len() ==> after.streams[j] == if j == stream_id {
                    stream.without_component(component_id)
                } else {
                    agent.streams[j]
                }
                &&& after.checklists.ignorable == agent.checklists.ignorable
                &&& after.checklists.lists.len() == agent.checklists.lists.len()
                &&& 0 <= j < agent.checklists.lists.len() ==> after.checklists.lists[j] == if j
                    == l {
                    agent.checklists.lists[l].without_component(component_id)
                } else {
                    agent.checklists.lists[j]
                }
                &&& after.consent is Some <==> agent.consent is Some
                &&& agent.consent is Some ==> after.consent->0 == agent.consent->0.stopped(
                    stream_id,
                    component_id,
                )
            }
        }),
{
}

/// Removing a component reports, behind the events that are there, one socket for
/// each of its host candidates, in their order, with the transport and the base
/// of the candidate.
pub proof fn law_removal_reports_sockets(
    agent: AgentView,
    stream_id: usize,
    component_id: usize,
    j: int,
)
    requires
        agent.wf(),
        stream_id < agent.streams.len(),
        1 <= component_id <= agent.streams[stream_id as int].components.len(),
    ensures
        ({
            let after = agent.without_component(stream_id, component_id);
            let l = agent.streams[stream_id as int].checklist_id as int;
            let hosts = agent.checklists.lists[l].local_candidates.filter(
                |c: Candidate|
                    c.component_id == component_id && c.candidate_type == CandidateType::Host,
            );
            &&& after.events.len() == agent.events.len() + hosts.len()
            &&& 0 <= j < agent.events.len() ==> after.events[j] == agent.events[j]
            &&& 0 <= j < hosts.len() ==> after.events[agent.events.len() + j]
                == AgentEvent::RemoveSocket(
                AgentSocket {
                    stream_id,
                    component_id: hosts[j].component_id,
                    transport: hosts[j].transport_type,
                    from: hosts[j].base_address,
                },
            )
        }),
{
    let host = |c: Candidate|
        c.component_id == component_id && c.candidate_type == CandidateType::Host;
    assert(host =~= (|c: Candidate| agent::is_socket_of(c, component_id)));
}

/// The reply to a request for a socket reaches the stream and its check list
/// where the component exists, and nothing else; where it does not exist,
/// nothing changes.
pub proof fn law_socket_reply_in_an_agent(
    agent: AgentView,
    stream_id: usize,
    socket: AllocatedSocket,
    now: Instant,
    j: int,
)
    requires
        agent.wf(),
        stream_id < agent.streams.len(),
    ensures
        ({
            let after = agent.with_socket(stream_id, socket, now);
            let stream = agent.streams[stream_id as int];
            let l = stream.checklist_id as int;
            let there = 1 <= socket.component_id <= stream.components.len()
                && stream.components[socket.component_id - 1] is Some;
            &&& !there ==> after == agent
            &&& after.consent == agent.consent && after.events == agent.events
            &&& after.checklists.ignorable == agent.checklists.ignorable
            &&& after.streams.len() == agent.streams.len()
            &&& there && 0 <= j < agent.streams.len() ==> after.streams[j] == if j == stream_id {
                stream.with_socket(socket)
            } else {
                agent.streams[j]
            }
            &&& after.checklists.lists.len() == agent.checklists.lists.len()
            &&& there && 0 <= j < agent.checklists.lists.len() ==> after.checklists.lists[j] == if j
                == l {
                agent.checklists.lists[l].with_socket(socket, now)
            } else {
                agent.checklists.lists[j]
            }
        }),
{
}

/// A draw stands for one of the sixty-four characters A to Z, a to z, 0 to 9, plus
/// and slash, by its remainder.
pub proof fn law_draw_stands_for_a_character(draw: u32)
    ensures
        ({
            let d = draw as int % 64;
            let c = secret::ice_char(draw);
            &&& d < 26 ==> c as int == 65 + d
            &&& 26 <= d < 52 ==> c as int == 97 + d - 26
            &&& 52 <= d < 62 ==> c as int == 48 + d - 52
            &&& d == 62 ==> c == '+'
            &&& d == 63 ==> c == '/'
        }),
{
    reveal_strlit("ABCDEFGHIJKLMNOPQRSTUVWXYZabcdefghijklmnopqrstuvwxyz0123456789+/");
    let chars = secret::ice_chars();
    assert forall|d: int| 0 <= d < 64 implies ({
        let c = #[trigger] chars[d];
        &&& d < 26 ==> c as int == 65 + d
        &&& 26 <= d < 52 ==> c as int == 97 + d - 26
        &&& 52 <= d < 62 ==> c as int == 48 + d - 52
        &&& d == 62 ==> c == '+'
        &&& d == 63 ==> c == '/'
    }) by {
        lemma_character(d);
    }
}

/// Each of the sixty-four characters by its place.
proof fn lemma_character(d: int)
    requires
        0 <= d < 64,
    ensures
        ({
            let c = secret::ice_chars()[d];
            &&& d < 26 ==> c as int == 65 + d
            &&& 26 <= d < 52 ==> c as int == 97 + d - 26
            &&& 52 <= d < 62 ==> c as int == 48 + d - 52
            &&& d == 62 ==> c == '+'
            &&& d == 63 ==> c == '/'
        }),
{
    reveal_strlit("ABCDEFGHIJKLMNOPQRSTUVWXYZabcdefghijklmnopqrstuvwxyz0123456789+/");
}

/// Random credentials have a fragment of four characters and a password of
/// twenty-two, each a letter, a digit, a plus or a slash.
pub proof fn law_random_credentials(credentials: Credentials, i: int)
    requires
        secret::looks_random(credentials),
    ensures
        credentials.ufrag@.len() == 4,
        credentials.passwd@.len() == 22,
        0 <= i < 4 ==> is_ice_character(credentials.ufrag@[i]),
        0 <= i < 22 ==> is_ice_character(credentials.passwd@[i]),
{
    let chars = secret::ice_chars();
    reveal_strlit("ABCDEFGHIJKLMNOPQRSTUVWXYZabcdefghijklmnopqrstuvwxyz0123456789+/");
    assert(chars.len() == 64);
    if 0 <= i < 4 {
        let k = chars.index_of(credentials.ufrag@[i]);
        assert(chars.contains(credentials.ufrag@[i]));
        lemma_character(k);
    }
    if 0 <= i < 22 {
        let k = chars.index_of(credentials.passwd@[i]);
        assert(chars.contains(credentials.passwd@[i]));
        lemma_character(k);
    }
}

/// Whether a character is a letter, a digit, a plus or a slash.
pub open spec fn is_ice_character(c: char) -> bool {
    ||| 'A' <= c <= 'Z'
    ||| 'a' <= c <= 'z'
    ||| '0' <= c <= '9'
    ||| c == '+'
    ||| c == '/'
}

} // verus!
