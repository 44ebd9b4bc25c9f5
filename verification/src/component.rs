//! The components of a stream.
use crate::agent::Agent;
use crate::candidate::Candidate;
use crate::gathering::{Gatherer, GathererView};
use crate::time::Instant;
use vstd::prelude::*;

verus! {

/// The id of the component that carries RTP.
pub const RTP: usize = 1;

/// The id of the component that carries RTCP.
pub const RTCP: usize = 2;

/// Whether a component can carry data.
#[derive(Debug, Clone, Copy, PartialEq, Eq, Structural)]
pub enum ComponentConnectionState {
    New,
    Connecting,
    Connected,
    Failed,
}

/// How far candidate gathering has come.
#[derive(Debug, Clone, Copy, PartialEq, Eq, Structural)]
pub enum GatherProgress {
    New,
    InProgress,
    Completed,
}

/// A local and a remote candidate.
#[derive(Debug, PartialEq, Eq)]
pub struct CandidatePair {
    pub local: Candidate,
    pub remote: Candidate,
}

/// The state of a component.
#[derive(Debug)]
pub struct ComponentState {
    pub id: usize,
    pub state: ComponentConnectionState,
    pub selected_pair: Option<CandidatePair>,
    pub gather_state: GatherProgress,
    pub gatherer: Option<Gatherer>,
}

/// The state of a component as a value.
#[verifier::ext_equal]
pub struct ComponentView {
    pub id: usize,
    pub state: ComponentConnectionState,
    pub selected_pair: Option<CandidatePair>,
    pub gather_state: GatherProgress,
    pub gatherer: Option<GathererView>,
}

impl ComponentView {
    /// A component that nothing has happened to yet.
    pub open spec fn fresh(id: usize) -> ComponentView {
        ComponentView {
            id,
            state: ComponentConnectionState::New,
            selected_pair: None,
            gather_state: GatherProgress::New,
            gatherer: None,
        }
    }

    /// Whether candidates are being gathered.
    pub open spec fn gathers(self) -> bool {
        self.gatherer is Some && self.gather_state == GatherProgress::InProgress
    }

    /// Whether gathering has something to report.
    pub open spec fn reports(self, now: Instant) -> bool {
        self.gathers() && self.gatherer->0.reports(now)
    }

    /// Whether gathering has something to send.
    pub open spec fn sends(self, now: Instant) -> bool {
        self.gathers() && self.gatherer->0.sends(now)
    }
}

/// The state of a component as a value.
pub open spec fn component_view(c: ComponentState) -> ComponentView {
    ComponentView {
        id: c.id,
        state: c.state,
        selected_pair: c.selected_pair,
        gather_state: c.gather_state,
        gatherer: match c.gatherer {
            Some(g) => Some(g@),
            None => None,
        },
    }
}

impl View for ComponentState {
    type V = ComponentView;

    open spec fn view(&self) -> ComponentView {
        component_view(*self)
    }
}

impl ComponentState {
    /// A component that nothing has happened to yet.
    pub fn new(id: usize) -> (r: ComponentState)
        ensures
            r@ == ComponentView::fresh(id),
    {
        ComponentState {
            id,
            state: ComponentConnectionState::New,
            selected_pair: None,
            gather_state: GatherProgress::New,
            gatherer: None,
        }
    }

    /// Forget the selected pair.
    pub fn clear_selected_pair(&mut self)
        ensures
            final(self)@ == (ComponentView { selected_pair: None, ..old(self)@ }),
    {
        self.selected_pair = None;
    }
}

/// A component of a stream.
#[derive(Debug, Clone, Copy)]
pub struct Component<'a> {
    pub agent: &'a Agent,
    pub stream_id: usize,
    pub component_id: usize,
}

impl<'a> Component<'a> {
    /// A handle for a component of an agent.
    pub(crate) fn from_stream(
        agent: &'a Agent,
        stream_id: usize,
        component_id: usize,
    ) -> (r: Component<'a>)
        ensures
            r == (Component { agent, stream_id, component_id }),
    {
        Component { agent, stream_id, component_id }
    }

    /// The id of the component within its stream.
    pub fn id(&self) -> (r: usize)
        ensures
            r == self.component_id,
    {
        self.component_id
    }
}

/// A component of a stream, for changes.
#[derive(Debug)]
pub struct ComponentMut<'a> {
    pub agent: &'a mut Agent,
    pub stream_id: usize,
    pub component_id: usize,
}

impl<'a> ComponentMut<'a> {
    /// A handle for a component of an agent.
    pub(crate) fn from_stream(
        agent: &'a mut Agent,
        stream_id: usize,
        component_id: usize,
    ) -> (r: ComponentMut<'a>)
        ensures
            *r.agent == *old(agent),
            *final(r.agent) == *final(agent),
            r.stream_id == stream_id,
            r.component_id == component_id,
    {
        ComponentMut { agent, stream_id, component_id }
    }

    /// The id of the component within its stream.
    pub fn id(&self) -> (r: usize)
        ensures
            r == self.component_id,
    {
        self.component_id
    }
}

} // verus!
