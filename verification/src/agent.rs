//! An ICE agent: its streams and what is shared between them.
use crate::candidate::{Candidate, CandidateType};
use crate::checklist::{CheckListSetView, CheckListView, ConnCheckList, ConnCheckListSet};
use crate::component::{ComponentConnectionState, ComponentView};
use crate::conncheck::Credentials;
use crate::consent::{Config, ConsentFreshness, ConsentView, Entry};
use crate::net::{AllocatedSocket, SocketAddr, TransportType};
use crate::stream::{Stream, StreamMut};
use crate::search;
use crate::stream_state::{StreamState, StreamView};
use crate::time::Instant;
use vstd::prelude::*;

verus! {

/// Why an agent refuses a request.
#[derive(Debug, Clone, Copy, PartialEq, Eq, Structural)]
pub enum AgentError {
    /// What is to be added is there already.
    AlreadyExists,
    /// What is to be changed is not there.
    ResourceNotFound,
}

/// A socket of a component.
#[derive(Debug, Clone, Copy, PartialEq, Eq, Structural)]
pub struct AgentSocket {
    pub stream_id: usize,
    pub component_id: usize,
    pub transport: TransportType,
    pub from: SocketAddr,
}

/// A component that has changed its state.
#[derive(Debug, Clone, Copy, PartialEq, Eq, Structural)]
pub struct AgentComponentStateChange {
    pub stream_id: usize,
    pub component_id: usize,
    pub state: ComponentConnectionState,
}

/// Something that the user of an agent has to be told.
#[derive(Debug, Clone, Copy, PartialEq, Eq, Structural)]
pub enum AgentEvent {
    /// A socket is not needed any more.
    RemoveSocket(AgentSocket),
    /// A component has changed its state.
    ComponentStateChange(AgentComponentStateChange),
}

/// An ICE agent.
#[derive(Debug)]
pub struct Agent {
    /// The stream with id `n` stands at index `n`.
    pub streams: Vec<StreamState>,
    pub checklistset: ConnCheckListSet,
    pub consent_freshness: Option<ConsentFreshness>,
    /// What the user has to be told, in order.
    pub events: Vec<AgentEvent>,
}

/// An ICE agent as a value.
#[verifier::ext_equal]
pub struct AgentView {
    pub streams: Seq<StreamView>,
    pub checklists: CheckListSetView,
    pub consent: Option<ConsentView>,
    pub events: Seq<AgentEvent>,
}

impl AgentView {
    /// Whether every stream stands in its place, is well-formed and has a
    /// check list of its own.
    pub open spec fn wf(self) -> bool {
        &&& forall|i: int|
            0 <= i < self.streams.len() ==> {
                &&& (#[trigger] self.streams[i]).id == i
                &&& self.streams[i].wf()
                &&& self.streams[i].checklist_id < self.checklists.lists.len()
            }
        &&& forall|i: int, j: int|
            #![trigger self.streams[i], self.streams[j]]
            0 <= i < j < self.streams.len() ==> self.streams[i].checklist_id
                != self.streams[j].checklist_id
    }

    /// Whether there is a stream with the given id.
    pub open spec fn has_stream(self, stream_id: usize) -> bool {
        stream_id < self.streams.len()
    }

    /// A stream.
    pub open spec fn stream(self, stream_id: usize) -> StreamView {
        self.streams[stream_id as int]
    }

    /// The check list of a stream.
    pub open spec fn list(self, stream_id: usize) -> CheckListView {
        self.checklists.lists[self.stream(stream_id).checklist_id as int]
    }

    /// With a stream replaced.
    pub open spec fn with_stream(self, stream_id: usize, stream: StreamView) -> AgentView {
        AgentView { streams: self.streams.update(stream_id as int, stream), ..self }
    }

    /// With the check list of a stream replaced.
    pub open spec fn with_list(self, stream_id: usize, list: CheckListView) -> AgentView {
        AgentView {
            checklists: self.checklists.with_list(self.stream(stream_id).checklist_id, list),
            ..self
        }
    }

    /// With the local credentials of a stream.
    pub open spec fn with_local_credentials(
        self,
        stream_id: usize,
        credentials: Credentials,
    ) -> AgentView {
        self.with_stream(
            stream_id,
            StreamView { local_credentials: Some(credentials), ..self.stream(stream_id) },
        ).with_list(
            stream_id,
            CheckListView { local_credentials: credentials, ..self.list(stream_id) },
        )
    }

    /// With the credentials of the peer of a stream.
    pub open spec fn with_remote_credentials(
        self,
        stream_id: usize,
        credentials: Credentials,
    ) -> AgentView {
        self.with_stream(
            stream_id,
            StreamView { remote_credentials: Some(credentials), ..self.stream(stream_id) },
        ).with_list(
            stream_id,
            CheckListView { remote_credentials: Some(credentials), ..self.list(stream_id) },
        )
    }

    /// The news of the sockets that a component has.
    pub open spec fn removals(self, stream_id: usize, component_id: usize) -> Seq<AgentEvent> {
        self.list(stream_id).local_candidates.filter(
            |c: Candidate| is_socket_of(c, component_id),
        ).map_values(|c: Candidate| removal(stream_id, c))
    }

    /// Without a component and anything that belongs to it.
    pub open spec fn without_component(self, stream_id: usize, component_id: usize) -> AgentView {
        if self.has_stream(stream_id) && self.stream(stream_id).has_place(component_id) {
            AgentView {
                streams: self.streams.update(
                    stream_id as int,
                    self.stream(stream_id).without_component(component_id),
                ),
                checklists: self.checklists.with_list(
                    self.stream(stream_id).checklist_id,
                    self.list(stream_id).without_component(component_id),
                ),
                consent: match self.consent {
                    Some(c) => Some(c.stopped(stream_id, component_id)),
                    None => None,
                },
                events: self.events + self.removals(stream_id, component_id),
            }
        } else {
            self
        }
    }

    /// After a restart of a stream.
    pub open spec fn restarted(
        self,
        stream_id: usize,
        local_credentials: Credentials,
        now: Instant,
    ) -> AgentView {
        if self.has_stream(stream_id) {
            AgentView {
                streams: self.streams.update(
                    stream_id as int,
                    self.stream(stream_id).restarted(local_credentials),
                ),
                checklists: self.checklists.with_list(
                    self.stream(stream_id).checklist_id,
                    self.list(stream_id).restarted(local_credentials, now),
                ),
                consent: match self.consent {
                    Some(c) => Some(
                        c.stopped_all(stream_id, self.stream(stream_id).component_ids()),
                    ),
                    None => None,
                },
                events: self.events + self.stream(stream_id).idle_ids().map_values(
                    |component_id: usize| connecting(stream_id, component_id),
                ),
            }
        } else {
            self
        }
    }

    /// With the reply to a request for a socket, if its component exists.
    pub open spec fn with_socket(
        self,
        stream_id: usize,
        socket: AllocatedSocket,
        now: Instant,
    ) -> AgentView {
        if self.stream(stream_id).component(socket.component_id) is Some {
            AgentView {
                streams: self.streams.update(
                    stream_id as int,
                    self.stream(stream_id).with_socket(socket),
                ),
                checklists: self.checklists.with_list(
                    self.stream(stream_id).checklist_id,
                    self.list(stream_id).with_socket(socket, now),
                ),
                ..self
            }
        } else {
            self
        }
    }
}

/// Whether a local candidate stands for a socket of a component.
pub open spec fn is_socket_of(c: Candidate, component_id: usize) -> bool {
    c.component_id == component_id && c.candidate_type == CandidateType::Host
}

/// The news that the socket of a candidate is not needed any more.
pub open spec fn removal(stream_id: usize, c: Candidate) -> AgentEvent {
    AgentEvent::RemoveSocket(
        AgentSocket {
            stream_id,
            component_id: c.component_id,
            transport: c.transport_type,
            from: c.base_address,
        },
    )
}

/// The news that a component is connecting.
pub open spec fn connecting(stream_id: usize, component_id: usize) -> AgentEvent {
    AgentEvent::ComponentStateChange(
        AgentComponentStateChange {
            stream_id,
            component_id,
            state: ComponentConnectionState::Connecting,
        },
    )
}

/// A consent freshness process, if there is one, as a value.
pub open spec fn consent_view(consent: Option<ConsentFreshness>) -> Option<ConsentView> {
    match consent {
        Some(c) => Some(c@),
        None => None,
    }
}

impl View for Agent {
    type V = AgentView;

    open spec fn view(&self) -> AgentView {
        AgentView {
            streams: self.streams@.map_values(|s: StreamState| s@),
            checklists: self.checklistset@,
            consent: consent_view(self.consent_freshness),
            events: self.events@,
        }
    }
}

impl Agent {
    /// An agent without streams, with a consent freshness process of the given
    /// configuration, if there is one.
    pub fn new(consent_freshness_config: Option<Config>) -> (r: Agent)
        ensures
            r@.wf(),
            r@ == (AgentView {
                streams: Seq::empty(),
                checklists: CheckListSetView { lists: Seq::empty(), ignorable: Seq::empty() },
                consent: match consent_freshness_config {
                    Some(config) => Some(ConsentView { entries: Seq::empty(), config }),
                    None => None,
                },
                events: Seq::empty(),
            }),
    {
        let consent_freshness = match consent_freshness_config {
            Some(config) => Some(ConsentFreshness::new(config)),
            None => None,
        };
        Agent {
            streams: Vec::new(),
            checklistset: ConnCheckListSet::new(),
            consent_freshness,
            events: Vec::new(),
        }
    }

    /// The state of a stream.
    pub fn stream_state(&self, stream_id: usize) -> (r: Option<&StreamState>)
        ensures
            r is Some <==> self@.has_stream(stream_id),
            r matches Some(s) ==> s@ == self@.stream(stream_id),
    {
        if stream_id < self.streams.len() {
            Some(&self.streams[stream_id])
        } else {
            None
        }
    }

    /// Mutable access to the state of a stream.
    pub fn mut_stream_state(&mut self, stream_id: usize) -> (r: Option<&mut StreamState>)
        ensures
            match r {
                Some(s) => {
                    &&& old(self)@.has_stream(stream_id)
                    &&& s@ == old(self)@.stream(stream_id)
                    &&& final(self)@ =~= old(self)@.with_stream(stream_id, final(s)@)
                },
                None => !old(self)@.has_stream(stream_id) && *final(self) == *old(self),
            },
    {
        if stream_id < self.streams.len() {
            Some(&mut self.streams[stream_id])
        } else {
            None
        }
    }

    /// A stream.
    pub fn stream(&self, stream_id: usize) -> (r: Option<Stream<'_>>)
        ensures
            r == if self@.has_stream(stream_id) {
                Some(Stream { agent: self, id: stream_id })
            } else {
                None
            },
    {
        if stream_id < self.streams.len() {
            Some(Stream::from_agent(self, stream_id))
        } else {
            None
        }
    }

    /// Mutable access to a stream.
    pub fn mut_stream(&mut self, stream_id: usize) -> (r: Option<StreamMut<'_>>)
        ensures
            match r {
                Some(s) => {
                    &&& old(self)@.has_stream(stream_id)
                    &&& *s.agent == *old(self)
                    &&& s.id == stream_id
                    &&& *final(self) == *final(s.agent)
                },
                None => !old(self)@.has_stream(stream_id) && *final(self) == *old(self),
            },
    {
        if stream_id < self.streams.len() {
            Some(StreamMut::from_agent(self, stream_id))
        } else {
            None
        }
    }

    /// The check list of a stream.
    pub(crate) fn list(&self, stream_id: usize) -> (r: &ConnCheckList)
        requires
            self@.wf(),
            self@.has_stream(stream_id),
        ensures
            r@ == self@.list(stream_id),
    {
        let checklist_id = self.streams[stream_id].checklist_id;
        assert(self@.streams[stream_id as int].checklist_id < self@.checklists.lists.len());
        self.checklistset.list(checklist_id).unwrap()
    }

    /// Mutable access to the check list of a stream.
    pub(crate) fn mut_list(&mut self, stream_id: usize) -> (r: &mut ConnCheckList)
        requires
            old(self)@.wf(),
            old(self)@.has_stream(stream_id),
        ensures
            r@ == old(self)@.list(stream_id),
            final(self)@ =~= old(self)@.with_list(stream_id, final(r)@),
    {
        let checklist_id = self.streams[stream_id].checklist_id;
        assert(self@.streams[stream_id as int].checklist_id < self@.checklists.lists.len());
        self.checklistset.mut_list(checklist_id).unwrap()
    }

    /// Add a stream.  Returns its id.
    pub fn add_stream(&mut self) -> (r: usize)
        requires
            old(self)@.wf(),
        ensures
            final(self)@.wf(),
            r == old(self)@.streams.len(),
            final(self)@.streams == old(self)@.streams.push(
                StreamView {
                    id: r,
                    checklist_id: old(self)@.checklists.lists.len() as usize,
                    components: Seq::empty(),
                    local_credentials: None,
                    remote_credentials: None,
                },
            ),
            final(self)@.checklists.lists.len() == old(self)@.checklists.lists.len() + 1,
            final(self)@.checklists.lists.take(old(self)@.checklists.lists.len() as int)
                == old(self)@.checklists.lists,
            final(self)@.checklists.ignorable == old(self)@.checklists.ignorable,
            final(self)@.list(r).is_new(),
            final(self)@.consent == old(self)@.consent,
            final(self)@.events == old(self)@.events,
    {
        let id = self.streams.len();
        let checklist_id = self.checklistset.new_list();
        self.streams.push(StreamState::new(id, checklist_id));
        assert(self@.streams =~= old(self)@.streams.push(self@.streams.last()));
        id
    }

    /// Queue the news of the sockets that a component has.
    fn report_removals(&mut self, stream_id: usize, component_id: usize)
        requires
            old(self)@.wf(),
            old(self)@.has_stream(stream_id),
        ensures
            final(self)@ == (AgentView {
                events: old(self)@.events + old(self)@.removals(stream_id, component_id),
                ..old(self)@
            }),
    {
        let ghost before = self@;
        let ghost candidates = before.list(stream_id).local_candidates;
        let ghost socket = |c: Candidate| is_socket_of(c, component_id);
        let ghost news = |c: Candidate| removal(stream_id, c);
        let count = self.list(stream_id).local_candidates.len();
        assert(candidates.take(0).filter(socket).map_values(news) =~= Seq::empty()) by {
            reveal(Seq::filter);
        }
        assert(self.events@ =~= before.events + candidates.take(0).filter(socket).map_values(news));
        let mut i: usize = 0;
        while i < count
            invariant
                i <= count == candidates.len(),
                before.wf(),
                before.has_stream(stream_id),
                candidates == before.list(stream_id).local_candidates,
                socket == (|c: Candidate| is_socket_of(c, component_id)),
                news == (|c: Candidate| removal(stream_id, c)),
                self@ == (AgentView { events: self@.events, ..before }),
                self@.events == before.events + candidates.take(i as int).filter(socket).map_values(
                    news,
                ),
            decreases count - i,
        {
            proof {
                search::lemma_filter_step(candidates, socket, i as int);
            }
            let candidate = &self.list(stream_id).local_candidates[i];
            if candidate.component_id == component_id && candidate.candidate_type
                == CandidateType::Host {
                let event = AgentEvent::RemoveSocket(
                    AgentSocket {
                        stream_id,
                        component_id,
                        transport: candidate.transport_type,
                        from: candidate.base_address,
                    },
                );
                self.events.push(event);
            }
            assert(self@.events =~= before.events + candidates.take(i + 1).filter(
                socket,
            ).map_values(news));
            i = i + 1;
        }
        assert(candidates.take(i as int) =~= candidates);
    }

    /// Remove a component and anything that belongs to it.
    pub fn remove_component(&mut self, stream_id: usize, component_id: usize)
        requires
            old(self)@.wf(),
        ensures
            final(self)@.wf(),
            final(self)@ == old(self)@.without_component(stream_id, component_id),
    {
        let ghost before = self@;
        let Some(stream_state) = self.mut_stream_state(stream_id) else {
            return;
        };
        if !stream_state.remove_component(component_id) {
            assert(self@ =~= before);
            return;
        }
        assert(self@.streams[stream_id as int].wf());
        self.report_removals(stream_id, component_id);
        self.mut_list(stream_id).remove_component(component_id);
        if let Some(consent) = self.consent_freshness.as_mut() {
            consent.stop(stream_id, component_id);
        }
    }

    /// Stop monitoring consent for the given components of a stream.
    fn stop_consent(&mut self, stream_id: usize, component_ids: &Vec<usize>)
        ensures
            final(self)@ == (AgentView {
                consent: match old(self)@.consent {
                    Some(c) => Some(c.stopped_all(stream_id, component_ids@)),
                    None => None,
                },
                ..old(self)@
            }),
    {
        let Some(consent) = self.consent_freshness.as_mut() else {
            return;
        };
        let ghost before = consent@;
        proof {
            search::lemma_filter_all(
                before.entries,
                |e: Entry|
                    e.stream_id != stream_id || !component_ids@.take(0).contains(e.component_id),
            );
        }
        let mut i: usize = 0;
        while i < component_ids.len()
            invariant
                i <= component_ids.len(),
                consent@ == before.stopped_all(stream_id, component_ids@.take(i as int)),
            decreases component_ids.len() - i,
        {
            let component_id = component_ids[i];
            proof {
                let ids = component_ids@.take(i as int);
                let more = component_ids@.take(i + 1);
                assert(more =~= ids.push(component_id));
                assert forall|id: usize| #[trigger] more.contains(id) == (ids.contains(id) || id
                    == component_id) by {
                    if id == component_id {
                        assert(more[i as int] == id);
                    } else if ids.contains(id) {
                        let k = ids.index_of(id);
                        assert(more[k] == id);
                    } else if more.contains(id) {
                        let k = more.index_of(id);
                        assert(ids[k] == id);
                    }
                }
                search::lemma_filter_twice(
                    before.entries,
                    |e: Entry| e.stream_id != stream_id || !ids.contains(e.component_id),
                    |e: Entry| !e.tracks(stream_id, component_id),
                    |e: Entry| e.stream_id != stream_id || !more.contains(e.component_id),
                );
            }
            consent.stop(stream_id, component_id);
            i = i + 1;
        }
        assert(component_ids@.take(i as int) =~= component_ids@);
    }

    /// Restart a stream with the given local credentials.
    ///
    /// The local candidates and their sockets stay.  What the peer has told is
    /// forgotten, and consent is not monitored until a pair is selected again.
    pub fn restart_stream_with_credentials(
        &mut self,
        stream_id: usize,
        local_credentials: Credentials,
        now: Instant,
    ) -> (r: Result<(), AgentError>)
        requires
            old(self)@.wf(),
        ensures
            final(self)@.wf(),
            r == if old(self)@.has_stream(stream_id) {
                Ok::<(), AgentError>(())
            } else {
                Err(AgentError::ResourceNotFound)
            },
            final(self)@ == old(self)@.restarted(stream_id, local_credentials, now),
    {
        let ghost before = self@;
        let Some(stream_state) = self.mut_stream_state(stream_id) else {
            return Err(AgentError::ResourceNotFound);
        };
        let component_ids = stream_state.component_ids_iter();
        let idle_ids = stream_state.start_connecting();
        stream_state.clear_selected_pairs();
        stream_state.set_local_credentials(local_credentials.clone());
        stream_state.clear_remote_credentials();
        self.mut_list(stream_id).restart(local_credentials, now);
        self.stop_consent(stream_id, &component_ids);
        let ghost news = |component_id: usize| connecting(stream_id, component_id);
        let ghost quiet = self@;
        let mut i: usize = 0;
        while i < idle_ids.len()
            invariant
                i <= idle_ids.len(),
                news == (|component_id: usize| connecting(stream_id, component_id)),
                self@ == (AgentView { events: self@.events, ..quiet }),
                self@.events == quiet.events + idle_ids@.take(i as int).map_values(news),
            decreases idle_ids.len() - i,
        {
            let event = AgentEvent::ComponentStateChange(
                AgentComponentStateChange {
                    stream_id,
                    component_id: idle_ids[i],
                    state: ComponentConnectionState::Connecting,
                },
            );
            self.events.push(event);
            assert(self@.events =~= quiet.events + idle_ids@.take(i + 1).map_values(news));
            i = i + 1;
        }
        assert(idle_ids@.take(i as int) =~= idle_ids@);
        assert(self@ =~= before.restarted(stream_id, local_credentials, now));
        Ok(())
    }

    /// Take the next thing that the user has to be told.
    pub fn poll_event(&mut self) -> (r: Option<AgentEvent>)
        ensures
            r == if old(self)@.events.len() > 0 {
                Some(old(self)@.events[0])
            } else {
                None
            },
            final(self)@ == (AgentView {
                events: if old(self)@.events.len() > 0 {
                    old(self)@.events.drop_first()
                } else {
                    old(self)@.events
                },
                ..old(self)@
            }),
    {
        if self.events.len() == 0 {
            return None;
        }
        let event = self.events.remove(0);
        assert(self.events@ =~= old(self).events@.drop_first());
        Some(event)
    }
}

impl Default for Agent {
    fn default() -> (r: Self)
        ensures
            r@.wf(),
            r@.streams.len() == 0,
            r@.checklists == (CheckListSetView { lists: Seq::empty(), ignorable: Seq::empty() }),
            r@.consent is None,
            r@.events.len() == 0,
    {
        Agent::new(None)
    }
}

} // verus!
