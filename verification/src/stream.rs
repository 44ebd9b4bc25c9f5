//! A stream of an agent.
use crate::agent::{Agent, AgentError, AgentView};
use crate::candidate::Candidate;
use crate::checklist::{
    CheckListSetView, CheckListView, HandleRecvReply, PendingRecv, RecvIgnorable,
};
use crate::component::{Component, ComponentMut, GatherProgress};
use crate::net::{AllocatedSocket, SocketAddr, StunError, Transmit, TransportType};
use crate::secret;
use crate::secret::generate_restart_credentials;
use crate::stream_state::StreamView;
use crate::time::Instant;
use vstd::prelude::*;

pub use crate::conncheck::Credentials;
pub use crate::gathering::GatheredCandidate;

verus! {

/// A stream.
#[derive(Debug, Clone, Copy)]
pub struct Stream<'a> {
    pub agent: &'a Agent,
    pub id: usize,
}

impl<'a> Stream<'a> {
    /// Whether the agent is well-formed and has the stream.
    pub open spec fn valid(&self) -> bool {
        self.agent@.wf() && self.agent@.has_stream(self.id)
    }

    /// A handle for a stream of an agent.
    pub(crate) fn from_agent(agent: &'a Agent, id: usize) -> (r: Stream<'a>)
        ensures
            r == (Stream { agent, id }),
    {
        Stream { agent, id }
    }

    /// The agent that handles this stream.
    pub fn agent(&self) -> (r: &'a Agent)
        ensures
            *r == *self.agent,
    {
        self.agent
    }

    /// The id of the stream within its agent.
    pub fn id(&self) -> (r: usize)
        ensures
            r == self.id,
    {
        self.id
    }

    /// A component of this stream, or `None` if there is none with the given
    /// id.
    pub fn component(&self, index: usize) -> (r: Option<Component<'_>>)
        ensures
            r == if self.agent@.has_stream(self.id) && self.agent@.stream(self.id).component(
                index,
            ) is Some {
                Some(Component { agent: self.agent, stream_id: self.id, component_id: index })
            } else {
                None
            },
    {
        let stream_state = self.agent.stream_state(self.id)?;
        if stream_state.component_state(index).is_some() {
            Some(Component::from_stream(self.agent, self.id, index))
        } else {
            None
        }
    }

    /// The local credentials, if they have been set.
    pub fn local_credentials(&self) -> (r: Option<Credentials>)
        ensures
            r == if self.agent@.has_stream(self.id) {
                self.agent@.stream(self.id).local_credentials
            } else {
                None
            },
    {
        let stream_state = self.agent.stream_state(self.id)?;
        stream_state.local_credentials()
    }

    /// The credentials of the peer, if they have been set.
    pub fn remote_credentials(&self) -> (r: Option<Credentials>)
        ensures
            r == if self.agent@.has_stream(self.id) {
                self.agent@.stream(self.id).remote_credentials
            } else {
                None
            },
    {
        let stream_state = self.agent.stream_state(self.id)?;
        stream_state.remote_credentials()
    }

    /// The local candidates.
    pub fn local_candidates(&self) -> (r: &[Candidate])
        requires
            self.valid(),
        ensures
            r@ == self.agent@.list(self.id).local_candidates,
    {
        self.agent.list(self.id).local_candidates()
    }

    /// The candidates of the peer.
    pub fn remote_candidates(&self) -> (r: &[Candidate])
        requires
            self.valid(),
        ensures
            r@ == self.agent@.list(self.id).remote_candidates,
    {
        self.agent.list(self.id).remote_candidates()
    }

    /// The ids of the components, in ascending order.
    pub fn component_ids_iter(&self) -> (r: Vec<usize>)
        requires
            self.agent@.has_stream(self.id),
        ensures
            r@ == self.agent@.stream(self.id).component_ids(),
    {
        self.agent.streams[self.id].component_ids_iter()
    }
}

/// A stream, for changes.
#[derive(Debug)]
pub struct StreamMut<'a> {
    pub agent: &'a mut Agent,
    pub id: usize,
}

/// What is to be done next with data that has been received.
#[derive(Debug, PartialEq, Eq)]
pub enum IncomingStep {
    /// Hand the data to the gathering process of the component, and report
    /// whether it took the data with
    /// [`StreamMut::handle_gatherer_reply`].
    Gatherer { component_id: usize, transmit: Transmit, now: Instant },
    /// Hand the data to the connectivity checks of the list, whose reply is
    /// the answer.
    Checklist { checklist_id: usize, component_id: usize, transmit: Transmit, now: Instant },
    /// Nothing: this is the answer.
    Reply(HandleRecvReply),
}

impl StreamView {
    /// What is to be done with data for a component once its gathering
    /// process, if there is one, has been asked whether it takes the data.
    pub open spec fn route(
        self,
        component_id: usize,
        transmit: Transmit,
        now: Instant,
        taken: bool,
    ) -> IncomingStep {
        if self.gathers(component_id) && taken {
            IncomingStep::Reply(HandleRecvReply::bare(true))
        } else if self.component(component_id) is None {
            IncomingStep::Reply(HandleRecvReply::bare(false))
        } else {
            IncomingStep::Checklist {
                checklist_id: self.checklist_id,
                component_id,
                transmit,
                now,
            }
        }
    }
}

impl<'a> StreamMut<'a> {
    /// The agent as a value.
    pub open spec fn state(&self) -> AgentView {
        self.agent@
    }

    /// Whether the agent is well-formed and has the stream.
    pub open spec fn valid(&self) -> bool {
        self.state().wf() && self.state().has_stream(self.id)
    }

    /// A handle for a stream of an agent.
    pub(crate) fn from_agent(agent: &'a mut Agent, id: usize) -> (r: StreamMut<'a>)
        ensures
            *r.agent == *old(agent),
            r.id == id,
            *final(r.agent) == *final(agent),
    {
        StreamMut { agent, id }
    }

    /// The stream, for reading.
    pub fn deref(&self) -> (r: Stream<'_>)
        ensures
            r.agent@ == self.state(),
            r.id == self.id,
    {
        Stream::from_agent(self.agent, self.id)
    }

    /// The agent that handles this stream.
    pub fn mut_agent(&'a mut self) -> (r: &'a mut Agent)
        ensures
            *r == *old(self).agent,
            *final(self).agent == *final(r),
            *final(final(self).agent) == *final(old(self).agent),
            final(self).id == old(self).id,
    {
        self.agent
    }

    /// Add a component to this stream, in the lowest free place.  Returns its
    /// id.
    pub fn add_component(&mut self) -> (r: Result<usize, AgentError>)
        requires
            old(self).state().wf(),
            old(self).state().has_stream(old(self).id) ==> old(self).state().stream(
                old(self).id,
            ).components.len() < usize::MAX,
        ensures
            *final(final(self).agent) == *final(old(self).agent),
            final(self).id == old(self).id,
            final(self).state().wf(),
            ({
                let before = old(self).state();
                let id = old(self).id;
                if before.has_stream(id) {
                    let stream = before.stream(id);
                    let component_id = (stream.free_index() + 1) as usize;
                    &&& r == Ok::<usize, AgentError>(component_id)
                    &&& final(self).state() == before.with_stream(
                        id,
                        stream.with_new_component(),
                    ).with_list(id, before.list(id).with_component(component_id))
                } else {
                    &&& r == Err::<usize, AgentError>(AgentError::ResourceNotFound)
                    &&& final(self).state() == before
                }
            }),
    {
        let Some(stream_state) = self.agent.mut_stream_state(self.id) else {
            return Err(AgentError::ResourceNotFound);
        };
        let component_id = stream_state.add_component()?;
        self.agent.mut_list(self.id).add_component(component_id);
        Ok(component_id)
    }

    /// Remove a component from this stream without changing the id of any
    /// other.
    pub fn remove_component(&mut self, index: usize)
        requires
            old(self).state().wf(),
        ensures
            *final(final(self).agent) == *final(old(self).agent),
            final(self).id == old(self).id,
            final(self).state().wf(),
            final(self).state() == old(self).state().without_component(old(self).id, index),
    {
        if index < 1 {
            return;
        }
        self.agent.remove_component(self.id, index);
    }

    /// Mutable access to a component of this stream, or `None` if there is
    /// none with the given id.
    pub fn mut_component(&mut self, index: usize) -> (r: Option<ComponentMut<'_>>)
        ensures
            match r {
                Some(c) => {
                    &&& old(self).state().has_stream(old(self).id)
                    &&& old(self).state().stream(old(self).id).component(index) is Some
                    &&& *c.agent == *old(self).agent
                    &&& c.stream_id == old(self).id
                    &&& c.component_id == index
                    &&& *final(self).agent == *final(c.agent)
                },
                None => {
                    &&& !old(self).state().has_stream(old(self).id) || old(self).state().stream(
                        old(self).id,
                    ).component(index) is None
                    &&& *final(self).agent == *old(self).agent
                },
            },
            *final(final(self).agent) == *final(old(self).agent),
            final(self).id == old(self).id,
    {
        let stream_state = self.agent.stream_state(self.id)?;
        if stream_state.component_state(index).is_some() {
            Some(ComponentMut::from_stream(self.agent, self.id, index))
        } else {
            None
        }
    }

    /// Set the local credentials.
    pub fn set_local_credentials(&mut self, credentials: Credentials)
        requires
            old(self).valid(),
        ensures
            *final(final(self).agent) == *final(old(self).agent),
            final(self).id == old(self).id,
            final(self).state().wf(),
            final(self).state() == old(self).state().with_local_credentials(
                old(self).id,
                credentials,
            ),
    {
        let stream_state = self.agent.mut_stream_state(self.id).unwrap();
        stream_state.set_local_credentials(credentials.clone());
        self.agent.mut_list(self.id).set_local_credentials(credentials);
    }

    /// Set the credentials of the peer.
    pub fn set_remote_credentials(&mut self, credentials: Credentials)
        requires
            old(self).valid(),
        ensures
            *final(final(self).agent) == *final(old(self).agent),
            final(self).id == old(self).id,
            final(self).state().wf(),
            final(self).state() == old(self).state().with_remote_credentials(
                old(self).id,
                credentials,
            ),
    {
        let stream_state = self.agent.mut_stream_state(self.id).unwrap();
        stream_state.set_remote_credentials(credentials.clone());
        self.agent.mut_list(self.id).set_remote_credentials(credentials);
    }

    /// Restart this stream with the given local credentials.
    ///
    /// The local candidates and their sockets stay.  The new credentials, and
    /// those and the candidates of the peer, have to be exchanged before
    /// connectivity checks can complete again.
    pub fn restart(&mut self, local_credentials: Credentials, now: Instant)
        requires
            old(self).state().wf(),
        ensures
            *final(final(self).agent) == *final(old(self).agent),
            final(self).id == old(self).id,
            final(self).state().wf(),
            final(self).state() == old(self).state().restarted(
                old(self).id,
                local_credentials,
                now,
            ),
    {
        let _ = self.agent.restart_stream_with_credentials(self.id, local_credentials, now);
    }

    /// Restart this stream with random local credentials, which are returned.
    pub fn restart_with_random_credentials(&mut self, now: Instant) -> (r: Credentials)
        requires
            old(self).state().wf(),
        ensures
            secret::looks_random(r),
            *final(final(self).agent) == *final(old(self).agent),
            final(self).id == old(self).id,
            final(self).state().wf(),
            final(self).state() == old(self).state().restarted(old(self).id, r, now),
    {
        let credentials = generate_restart_credentials();
        self.restart(credentials.clone(), now);
        credentials
    }

    /// Add a candidate of the peer.
    pub fn add_remote_candidate(&mut self, cand: Candidate)
        requires
            old(self).state().wf(),
        ensures
            *final(final(self).agent) == *final(old(self).agent),
            final(self).id == old(self).id,
            final(self).state().wf(),
            final(self).state() == if old(self).state().has_stream(old(self).id) {
                old(self).state().with_list(
                    old(self).id,
                    old(self).state().list(old(self).id).with_remote_candidate(cand),
                )
            } else {
                old(self).state()
            },
    {
        if self.agent.stream_state(self.id).is_none() {
            return;
        }
        self.agent.mut_list(self.id).add_remote_candidate(cand);
    }

    /// Provide the stream with data that has been received on a socket.
    /// Returns what is to be done with the data first.
    pub fn handle_incoming_data(
        &self,
        component_id: usize,
        transmit: Transmit,
        now: Instant,
    ) -> (r: IncomingStep)
        requires
            self.valid(),
        ensures
            ({
                let stream = self.state().stream(self.id);
                r == if stream.gathers(component_id) {
                    IncomingStep::Gatherer { component_id, transmit, now }
                } else {
                    stream.route(component_id, transmit, now, false)
                }
            }),
    {
        let stream_state = self.agent.stream_state(self.id).unwrap();
        // The gathering process, if there is one, comes before the
        // connectivity checks.
        if stream_state.is_gathering(component_id) {
            return IncomingStep::Gatherer { component_id, transmit, now };
        }
        self.handle_gatherer_reply(component_id, transmit, now, false)
    }

    /// Go on with received data after the gathering process of the component
    /// has been asked whether it takes the data.
    pub fn handle_gatherer_reply(
        &self,
        component_id: usize,
        transmit: Transmit,
        now: Instant,
        taken: bool,
    ) -> (r: IncomingStep)
        requires
            self.valid(),
        ensures
            r == self.state().stream(self.id).route(component_id, transmit, now, taken),
    {
        let stream_state = self.agent.stream_state(self.id).unwrap();
        let ret = stream_state.handle_incoming_data(component_id, taken);
        if ret.handled {
            return IncomingStep::Reply(ret);
        }
        if stream_state.component_state(component_id).is_none() {
            return IncomingStep::Reply(ret);
        }
        let checklist_id = stream_state.checklist_id;
        IncomingStep::Checklist { checklist_id, component_id, transmit, now }
    }

    /// Send an error that `handle_incoming_data` produced and that another
    /// agent on the same local port could have prevented.
    ///
    /// This should be called once all agents on the port have failed to handle
    /// the data.
    pub fn send_ignorable_error(&mut self, ignorable: RecvIgnorable)
        ensures
            *final(final(self).agent) == *final(old(self).agent),
            final(self).id == old(self).id,
            old(self).state().wf() ==> final(self).state().wf(),
            final(self).state() == (AgentView {
                checklists: CheckListSetView {
                    ignorable: old(self).state().checklists.ignorable.push(ignorable),
                    ..old(self).state().checklists
                },
                ..old(self).state()
            }),
    {
        self.agent.checklistset.send_ignorable_error(ignorable);
    }

    /// Take the application data that was received first.
    ///
    /// Must be called after data has been handled with `have_more_data` set.
    pub fn poll_recv(&mut self) -> (r: Option<PendingRecv>)
        requires
            old(self).valid(),
        ensures
            *final(final(self).agent) == *final(old(self).agent),
            final(self).id == old(self).id,
            final(self).state().wf(),
            r == if old(self).state().list(old(self).id).pending_recv.len() > 0 {
                Some(old(self).state().list(old(self).id).pending_recv[0])
            } else {
                None
            },
            final(self).state() == old(self).state().with_list(
                old(self).id,
                old(self).state().list(old(self).id).received(),
            ),
    {
        self.agent.mut_list(self.id).poll_recv()
    }

    /// Indicate that no more candidates are expected from the peer.
    pub fn end_of_remote_candidates(&mut self)
        requires
            old(self).valid(),
        ensures
            *final(final(self).agent) == *final(old(self).agent),
            final(self).id == old(self).id,
            final(self).state().wf(),
            final(self).state() == old(self).state().with_list(
                old(self).id,
                CheckListView {
                    remote_end_of_candidates: true,
                    ..old(self).state().list(old(self).id)
                },
            ),
    {
        self.agent.mut_list(self.id).end_of_remote_candidates();
    }

    /// Provide the reply to a request for a socket.  The values must match
    /// those of the request.
    ///
    /// The connectivity checks learn of it whether or not candidates are still
    /// being gathered.
    pub fn allocated_socket(
        &mut self,
        component_id: usize,
        transport: TransportType,
        from: SocketAddr,
        to: SocketAddr,
        local_addr: Result<SocketAddr, StunError>,
        now: Instant,
    )
        requires
            old(self).valid(),
        ensures
            *final(final(self).agent) == *final(old(self).agent),
            final(self).id == old(self).id,
            final(self).state().wf(),
            final(self).state() == old(self).state().with_socket(
                old(self).id,
                AllocatedSocket { component_id, transport, from, to, local_addr },
                now,
            ),
    {
        let socket = AllocatedSocket { component_id, transport, from, to, local_addr };
        let ghost before = self.state();
        let stream_state = self.agent.mut_stream_state(self.id).unwrap();
        let Some(component_state) = stream_state.mut_component_state(component_id) else {
            assert(self.state() =~= before);
            return;
        };
        if component_state.gather_state == GatherProgress::InProgress {
            if let Some(gather) = component_state.gatherer.as_mut() {
                gather.allocated_socket(socket);
            }
        }
        assert(self.state().stream(self.id) =~= before.stream(self.id).with_socket(socket));
        self.agent.mut_list(self.id).allocated_socket(socket, now);
        assert(self.state() =~= before.with_socket(self.id, socket, now));
    }

    /// Add a local candidate.  Returns whether it was added.
    pub fn add_local_candidate(&mut self, candidate: Candidate) -> (r: bool)
        requires
            old(self).valid(),
        ensures
            *final(final(self).agent) == *final(old(self).agent),
            final(self).id == old(self).id,
            final(self).state().wf(),
            r == !old(self).state().list(old(self).id).has_redundant(candidate),
            final(self).state() == old(self).state().with_list(
                old(self).id,
                old(self).state().list(old(self).id).with_local_candidate(candidate),
            ),
    {
        self.agent.mut_list(self.id).add_local_candidate(candidate)
    }

    /// Add a local candidate that gathering has found.  Returns whether it was
    /// added.
    pub fn add_local_gathered_candidate(&mut self, candidate: GatheredCandidate) -> (r: bool)
        requires
            old(self).valid(),
        ensures
            *final(final(self).agent) == *final(old(self).agent),
            final(self).id == old(self).id,
            final(self).state().wf(),
            r == !old(self).state().list(old(self).id).has_redundant(candidate.candidate),
            final(self).state() == old(self).state().with_list(
                old(self).id,
                old(self).state().list(old(self).id).with_local_candidate(candidate.candidate),
            ),
    {
        self.agent.mut_list(self.id).add_local_gathered_candidate(candidate)
    }

    /// Signal the end of local candidates.
    pub fn end_of_local_candidates(&mut self)
        requires
            old(self).valid(),
        ensures
            *final(final(self).agent) == *final(old(self).agent),
            final(self).id == old(self).id,
            final(self).state().wf(),
            final(self).state() == old(self).state().with_list(
                old(self).id,
                CheckListView {
                    local_end_of_candidates: true,
                    ..old(self).state().list(old(self).id)
                },
            ),
    {
        self.agent.mut_list(self.id).end_of_local_candidates();
    }
}

} // verus!
