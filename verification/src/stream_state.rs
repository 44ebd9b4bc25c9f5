//! The state of a stream.
use crate::agent::AgentError;
use crate::checklist::HandleRecvReply;
use crate::component;
use crate::component::{ComponentConnectionState, ComponentState, ComponentView, GatherProgress};
use crate::conncheck::Credentials;
use crate::gathering::{GatherPoll, GathererView, RequestRto};
use crate::net::{AllocatedSocket, Transmit};
use crate::search;
use crate::time::Instant;
use vstd::prelude::*;

verus! {

/// A stream: its components, by id, and its credentials.
#[derive(Debug)]
pub struct StreamState {
    pub id: usize,
    pub checklist_id: usize,
    /// The component with id `n` stands at index `n - 1`.
    pub components: Vec<Option<ComponentState>>,
    pub local_credentials: Option<Credentials>,
    pub remote_credentials: Option<Credentials>,
}

/// A stream as a value.
#[verifier::ext_equal]
pub struct StreamView {
    pub id: usize,
    pub checklist_id: usize,
    pub components: Seq<Option<ComponentView>>,
    pub local_credentials: Option<Credentials>,
    pub remote_credentials: Option<Credentials>,
}

/// A place for a component as a value.
pub open spec fn slot_view(slot: Option<ComponentState>) -> Option<ComponentView> {
    match slot {
        Some(c) => Some(component::component_view(c)),
        None => None,
    }
}

/// Whether the component in a place has something to report.
pub open spec fn slot_reports(slot: Option<ComponentView>, now: Instant) -> bool {
    slot matches Some(c) && c.reports(now)
}

/// Whether the component in a place has something to send.
pub open spec fn slot_sends(slot: Option<ComponentView>, now: Instant) -> bool {
    slot matches Some(c) && c.sends(now)
}

/// The point in time at which the component in a place, if it is gathering,
/// has the next thing to report or to send.
pub open spec fn slot_wake(slot: Option<ComponentView>) -> Option<Instant> {
    match slot {
        Some(c) => if c.gathers() {
            c.gatherer->0.wake()
        } else {
            None
        },
        None => None,
    }
}

/// A place without the selected pair of its component.
pub open spec fn slot_unselected(slot: Option<ComponentView>) -> Option<ComponentView> {
    match slot {
        Some(c) => Some(ComponentView { selected_pair: None, ..c }),
        None => None,
    }
}

/// Whether the component in a place is not connecting.
pub open spec fn slot_idle(slot: Option<ComponentView>) -> bool {
    slot matches Some(c) && c.state != ComponentConnectionState::Connecting
}

/// A place whose component is connecting.
pub open spec fn slot_connecting(slot: Option<ComponentView>) -> Option<ComponentView> {
    match slot {
        Some(c) => Some(ComponentView { state: ComponentConnectionState::Connecting, ..c }),
        None => None,
    }
}

/// A place whose component gathers with the given timeouts, if it has a
/// gatherer at all.
pub open spec fn slot_with_rto(
    slot: Option<ComponentView>,
    rto: RequestRto,
) -> Option<ComponentView> {
    match slot {
        Some(c) => match c.gatherer {
            Some(g) => Some(ComponentView { gatherer: Some(GathererView { rto, ..g }), ..c }),
            None => slot,
        },
        None => None,
    }
}

impl StreamView {
    /// Whether every component stands in its place.
    pub open spec fn wf(self) -> bool {
        forall|i: int|
            0 <= i < self.components.len() ==> (#[trigger] self.components[i] matches Some(c)
                ==> c.id == i + 1)
    }

    /// The component with the given id.
    pub open spec fn component(self, component_id: usize) -> Option<ComponentView> {
        if 1 <= component_id <= self.components.len() {
            self.components[component_id - 1]
        } else {
            None
        }
    }

    /// With the place at `index` replaced.
    pub open spec fn with_slot(self, index: int, slot: Option<ComponentView>) -> StreamView {
        StreamView { components: self.components.update(index, slot), ..self }
    }

    /// The lowest index at which there is no component.
    pub open spec fn free_index(self) -> int {
        match search::first(self.components, |slot: Option<ComponentView>| slot is None) {
            Some(i) => i,
            None => self.components.len() as int,
        }
    }

    /// With a new component in the lowest free place.
    pub open spec fn with_new_component(self) -> StreamView {
        let index = self.free_index();
        let slot = Some(ComponentView::fresh((index + 1) as usize));
        if index < self.components.len() {
            self.with_slot(index, slot)
        } else {
            StreamView { components: self.components.push(slot), ..self }
        }
    }

    /// Whether there is or was a component with the given id.
    pub open spec fn has_place(self, component_id: usize) -> bool {
        1 <= component_id <= self.components.len()
    }

    /// Without the given component.
    pub open spec fn without_component(self, component_id: usize) -> StreamView {
        if self.has_place(component_id) {
            self.with_slot(component_id - 1, None)
        } else {
            self
        }
    }

    /// The ids of the components, in the order of their places.
    pub open spec fn component_ids(self) -> Seq<usize> {
        self.components.filter(|slot: Option<ComponentView>| slot is Some).map_values(
            |slot: Option<ComponentView>| slot->0.id,
        )
    }

    /// Without any selected pair.
    pub open spec fn unselected(self) -> StreamView {
        StreamView {
            components: self.components.map_values(
                |slot: Option<ComponentView>| slot_unselected(slot),
            ),
            ..self
        }
    }

    /// The ids of the components that are not connecting, in the order of
    /// their places.
    pub open spec fn idle_ids(self) -> Seq<usize> {
        self.components.filter(|slot: Option<ComponentView>| slot_idle(slot)).map_values(
            |slot: Option<ComponentView>| slot->0.id,
        )
    }

    /// With every component connecting.
    pub open spec fn connecting(self) -> StreamView {
        StreamView {
            components: self.components.map_values(
                |slot: Option<ComponentView>| slot_connecting(slot),
            ),
            ..self
        }
    }

    /// After a restart: the components connect anew, without a selected pair
    /// and without the credentials of the peer.
    pub open spec fn restarted(self, local_credentials: Credentials) -> StreamView {
        StreamView {
            local_credentials: Some(local_credentials),
            remote_credentials: None,
            ..self.connecting().unselected()
        }
    }

    /// With the given timeouts for every gatherer.
    pub open spec fn with_rto(self, rto: RequestRto) -> StreamView {
        StreamView {
            components: self.components.map_values(
                |slot: Option<ComponentView>| slot_with_rto(slot, rto),
            ),
            ..self
        }
    }

    /// Whether the given component is gathering candidates.
    pub open spec fn gathers(self, component_id: usize) -> bool {
        self.component(component_id) matches Some(c) && c.gathers()
    }

    /// With the reply to a request for a socket passed on to the gathering
    /// process of its component, if there is one.
    pub open spec fn with_socket(self, socket: AllocatedSocket) -> StreamView {
        if self.gathers(socket.component_id) {
            let c = self.component(socket.component_id)->0;
            let g = c.gatherer->0;
            let told = GathererView { allocated: g.allocated.push(socket), ..g };
            self.with_slot(
                socket.component_id - 1,
                Some(ComponentView { gatherer: Some(told), ..c }),
            )
        } else {
            self
        }
    }

    /// The first component whose gathering has something to report.
    pub open spec fn first_reporting(self, now: Instant) -> Option<int> {
        search::first(self.components, |slot: Option<ComponentView>| slot_reports(slot, now))
    }

    /// The first component whose gathering has something to send.
    pub open spec fn first_sending(self, now: Instant) -> Option<int> {
        search::first(self.components, |slot: Option<ComponentView>| slot_sends(slot, now))
    }

    /// Whether `wait` is the earliest point in time at which a gatherer has
    /// something to report or to send.
    pub open spec fn earliest(self, wait: Instant) -> bool {
        &&& exists|i: int|
            0 <= i < self.components.len() && #[trigger] slot_wake(self.components[i]) == Some(wait)
        &&& forall|i: int|
            0 <= i < self.components.len() ==> (#[trigger] slot_wake(self.components[i]) matches
                Some(other) ==> wait.nanos <= other.nanos)
    }

    /// Whether `r` is the answer to a poll of the gathering processes.
    pub open spec fn gather_answers(self, now: Instant, r: GatherPoll) -> bool {
        match self.first_reporting(now) {
            Some(i) => r == self.components[i]->0.gatherer->0.answer(now),
            None => match r {
                GatherPoll::WaitUntil(wait) => self.earliest(wait),
                GatherPoll::Finished => forall|i: int|
                    0 <= i < self.components.len() ==> (#[trigger] slot_wake(
                        self.components[i],
                    )) is None,
                _ => false,
            },
        }
    }

    /// After a poll of the gathering processes: what has been reported is
    /// gone, and a component that reported completion has completed.
    pub open spec fn gather_polled(self, now: Instant) -> StreamView {
        match self.first_reporting(now) {
            Some(i) => {
                let c = self.components[i]->0;
                let g = c.gatherer->0;
                self.with_slot(
                    i,
                    Some(
                        ComponentView {
                            gather_state: if g.answer(now) is Complete {
                                GatherProgress::Completed
                            } else {
                                c.gather_state
                            },
                            gatherer: Some(g.polled(now)),
                            ..c
                        },
                    ),
                )
            },
            None => self,
        }
    }

    /// What the gathering processes have to send.
    pub open spec fn gather_transmit(self, now: Instant) -> Option<(usize, Transmit)> {
        match self.first_sending(now) {
            Some(i) => Some(
                (
                    self.components[i]->0.id,
                    self.components[i]->0.gatherer->0.transmits[0].item,
                ),
            ),
            None => None,
        }
    }

    /// After a poll for something to send.
    pub open spec fn gather_transmitted(self, now: Instant) -> StreamView {
        match self.first_sending(now) {
            Some(i) => {
                let c = self.components[i]->0;
                self.with_slot(
                    i,
                    Some(
                        ComponentView { gatherer: Some(c.gatherer->0.transmitted(now)), ..c },
                    ),
                )
            },
            None => self,
        }
    }
}

impl View for StreamState {
    type V = StreamView;

    open spec fn view(&self) -> StreamView {
        StreamView {
            id: self.id,
            checklist_id: self.checklist_id,
            components: self.components@.map_values(|slot: Option<ComponentState>| slot_view(slot)),
            local_credentials: self.local_credentials,
            remote_credentials: self.remote_credentials,
        }
    }
}

impl StreamState {
    /// A stream without components and credentials.
    pub fn new(id: usize, checklist_id: usize) -> (r: StreamState)
        ensures
            r@ == (StreamView {
                id,
                checklist_id,
                components: Seq::empty(),
                local_credentials: None,
                remote_credentials: None,
            }),
    {
        StreamState {
            id,
            checklist_id,
            components: Vec::new(),
            local_credentials: None,
            remote_credentials: None,
        }
    }

    /// Poll the gathering processes of the components.
    pub fn poll_gather(&mut self, now: Instant) -> (r: GatherPoll)
        ensures
            old(self)@.gather_answers(now, r),
            final(self)@ == old(self)@.gather_polled(now),
    {
        let ghost reports = |slot: Option<ComponentView>| slot_reports(slot, now);
        let ghost before = self@;
        let mut lowest_wait: Option<Instant> = None;
        let mut i: usize = 0;
        while i < self.components.len()
            invariant
                self@ == before,
                before == old(self)@,
                i <= self.components.len(),
                reports == (|slot: Option<ComponentView>| slot_reports(slot, now)),
                forall|j: int|
                    #![trigger before.components[j]]
                    0 <= j < i ==> !reports(before.components[j]),
                match lowest_wait {
                    Some(wait) => {
                        &&& exists|j: int|
                            0 <= j < i && #[trigger] slot_wake(before.components[j]) == Some(wait)
                        &&& forall|j: int|
                            0 <= j < i ==> (#[trigger] slot_wake(before.components[j]) matches Some(
                                other,
                            ) ==> wait.nanos <= other.nanos)
                    },
                    None => forall|j: int|
                        0 <= j < i ==> (#[trigger] slot_wake(before.components[j])) is None,
                },
            decreases self.components.len() - i,
        {
            let ghost slot = before.components[i as int];
            assert(slot == slot_view(self.components@[i as int]));
            proof {
                if slot_reports(slot, now) {
                    search::lemma_first_found(before.components, reports, i as int);
                }
            }
            let Some(component) = &mut self.components[i] else {
                i = i + 1;
                continue;
            };
            let in_progress = component.gather_state == GatherProgress::InProgress;
            let Some(gatherer) = component.gatherer.as_mut() else {
                i = i + 1;
                continue;
            };
            if !in_progress {
                i = i + 1;
                continue;
            }
            match gatherer.poll(now) {
                GatherPoll::WaitUntil(wait) => {
                    assert(slot_wake(before.components[i as int]) == Some(wait));
                    if let Some(check_wait) = lowest_wait {
                        if wait.nanos < check_wait.nanos {
                            lowest_wait = Some(wait);
                        }
                    } else {
                        lowest_wait = Some(wait);
                    }
                },
                GatherPoll::Complete(component_id) => {
                    component.gather_state = GatherProgress::Completed;
                    assert(self@ =~= before.gather_polled(now));
                    return GatherPoll::Complete(component_id);
                },
                GatherPoll::Finished => {},
                other => {
                    assert(self@ =~= before.gather_polled(now));
                    return other;
                },
            }
            assert(self@ =~= before);
            i = i + 1;
        }
        proof {
            search::lemma_first_absent(before.components, reports);
        }
        if let Some(lowest_wait) = lowest_wait {
            GatherPoll::WaitUntil(lowest_wait)
        } else {
            GatherPoll::Finished
        }
    }

    /// Poll the gathering processes of the components for something to send.
    /// The id is that of the component that sends.
    pub fn poll_gather_transmit(&mut self, now: Instant) -> (r: Option<(usize, Transmit)>)
        ensures
            r == old(self)@.gather_transmit(now),
            final(self)@ == old(self)@.gather_transmitted(now),
    {
        let ghost sends = |slot: Option<ComponentView>| slot_sends(slot, now);
        let ghost before = self@;
        let mut i: usize = 0;
        while i < self.components.len()
            invariant
                self@ == before,
                before == old(self)@,
                i <= self.components.len(),
                sends == (|slot: Option<ComponentView>| slot_sends(slot, now)),
                forall|j: int|
                    #![trigger before.components[j]]
                    0 <= j < i ==> !sends(before.components[j]),
            decreases self.components.len() - i,
        {
            let ghost slot = before.components[i as int];
            assert(slot == slot_view(self.components@[i as int]));
            proof {
                if slot_sends(slot, now) {
                    search::lemma_first_found(before.components, sends, i as int);
                }
            }
            let Some(component) = &mut self.components[i] else {
                i = i + 1;
                continue;
            };
            let id = component.id;
            let in_progress = component.gather_state == GatherProgress::InProgress;
            let Some(gatherer) = component.gatherer.as_mut() else {
                i = i + 1;
                continue;
            };
            if !in_progress {
                i = i + 1;
                continue;
            }
            if let Some(transmit) = gatherer.poll_transmit(now) {
                assert(self@ =~= before.gather_transmitted(now));
                return Some((id, transmit));
            }
            assert(self@ =~= before);
            i = i + 1;
        }
        proof {
            search::lemma_first_absent(before.components, sends);
        }
        None
    }

    /// Add a component in the lowest free place.  Returns its id: there always
    /// is such a place.
    pub fn add_component(&mut self) -> (r: Result<usize, AgentError>)
        requires
            old(self)@.components.len() < usize::MAX,
        ensures
            r == Ok::<usize, AgentError>((old(self)@.free_index() + 1) as usize),
            final(self)@ == old(self)@.with_new_component(),
    {
        let ghost free = |slot: Option<ComponentView>| slot is None;
        let ghost before = self@;
        let mut index: usize = 0;
        while index < self.components.len() && self.components[index].is_some()
            invariant
                self@ == before,
                index <= self.components.len(),
                free == (|slot: Option<ComponentView>| slot is None),
                forall|j: int|
                    #![trigger before.components[j]]
                    0 <= j < index ==> !free(before.components[j]),
            decreases self.components.len() - index,
        {
            assert(before.components[index as int] is Some);
            index = index + 1;
        }
        let component = Some(ComponentState::new(index + 1));
        if index < self.components.len() {
            assert(before.components[index as int] is None);
            proof {
                search::lemma_first_found(before.components, free, index as int);
            }
            self.components[index] = component;
        } else {
            proof {
                search::lemma_first_absent(before.components, free);
            }
            self.components.push(component);
        }
        assert(self@ =~= before.with_new_component());
        Ok(index + 1)
    }

    /// Remove a component without changing the id of any other.  Returns
    /// whether there is a place for the given id.
    pub fn remove_component(&mut self, component_id: usize) -> (r: bool)
        ensures
            r == old(self)@.has_place(component_id),
            final(self)@ == old(self)@.without_component(component_id),
    {
        if component_id < 1 || component_id > self.components.len() {
            return false;
        }
        self.components[component_id - 1] = None;
        assert(self@ =~= old(self)@.without_component(component_id));
        true
    }

    /// A component.
    pub fn component_state(&self, component_id: usize) -> (r: Option<&ComponentState>)
        ensures
            r is Some <==> self@.component(component_id) is Some,
            r matches Some(c) ==> c@ == self@.component(component_id)->0,
    {
        if component_id < 1 || component_id > self.components.len() {
            return None;
        }
        self.components[component_id - 1].as_ref()
    }

    /// Mutable access to a component.
    pub fn mut_component_state(&mut self, component_id: usize) -> (r: Option<&mut ComponentState>)
        ensures
            match r {
                Some(c) => {
                    &&& old(self)@.component(component_id) == Some(c@)
                    &&& final(self)@ =~= old(self)@.with_slot(component_id - 1, Some(final(c)@))
                },
                None => {
                    &&& old(self)@.component(component_id) is None
                    &&& final(self)@ =~= old(self)@
                },
            },
    {
        if component_id < 1 || component_id > self.components.len() {
            return None;
        }
        match &mut self.components[component_id - 1] {
            Some(c) => Some(c),
            None => None,
        }
    }

    /// The ids of the components, in ascending order.
    pub fn component_ids_iter(&self) -> (r: Vec<usize>)
        ensures
            r@ == self@.component_ids(),
    {
        let ghost slots = self@.components;
        let ghost present = |slot: Option<ComponentView>| slot is Some;
        let ghost id_of = |slot: Option<ComponentView>| slot->0.id;
        let mut ids: Vec<usize> = Vec::new();
        let mut i: usize = 0;
        assert(slots.take(0).filter(present).map_values(id_of) =~= Seq::empty()) by {
            reveal(Seq::filter);
        }
        while i < self.components.len()
            invariant
                slots == self@.components,
                i <= slots.len() == self.components.len(),
                present == (|slot: Option<ComponentView>| slot is Some),
                id_of == (|slot: Option<ComponentView>| slot->0.id),
                ids@ == slots.take(i as int).filter(present).map_values(id_of),
            decreases self.components.len() - i,
        {
            proof {
                search::lemma_filter_step(slots, present, i as int);
            }
            if let Some(component) = &self.components[i] {
                ids.push(component.id);
            }
            assert(ids@ =~= slots.take(i + 1).filter(present).map_values(id_of));
            i = i + 1;
        }
        assert(slots.take(i as int) =~= slots);
        ids
    }

    /// Forget the selected pair of every component.
    pub fn clear_selected_pairs(&mut self)
        ensures
            final(self)@ == old(self)@.unselected(),
    {
        let ghost before = self@;
        let mut i: usize = 0;
        while i < self.components.len()
            invariant
                before == old(self)@,
                i <= self.components.len() == before.components.len(),
                self@ == (StreamView { components: self@.components, ..before }),
                forall|j: int|
                    0 <= j < i ==> #[trigger] self@.components[j] == slot_unselected(
                        before.components[j],
                    ),
                forall|j: int|
                    i <= j < self.components.len() ==> #[trigger] self@.components[j]
                        == before.components[j],
            decreases self.components.len() - i,
        {
            let ghost middle = self@.components;
            let ghost slot = middle[i as int];
            if let Some(component) = &mut self.components[i] {
                component.clear_selected_pair();
            }
            assert(self@.components =~= middle.update(i as int, slot_unselected(slot)));
            i = i + 1;
        }
        assert(self@ =~= before.unselected());
    }

    /// Let every component connect.  Returns the ids of those that were not
    /// connecting before.
    pub fn start_connecting(&mut self) -> (r: Vec<usize>)
        ensures
            r@ == old(self)@.idle_ids(),
            final(self)@ == old(self)@.connecting(),
    {
        let ghost before = self@;
        let ghost slots = before.components;
        let ghost idle = |slot: Option<ComponentView>| slot_idle(slot);
        let ghost id_of = |slot: Option<ComponentView>| slot->0.id;
        let mut ids: Vec<usize> = Vec::new();
        let mut i: usize = 0;
        assert(slots.take(0).filter(idle).map_values(id_of) =~= Seq::empty()) by {
            reveal(Seq::filter);
        }
        while i < self.components.len()
            invariant
                before == old(self)@,
                slots == before.components,
                idle == (|slot: Option<ComponentView>| slot_idle(slot)),
                id_of == (|slot: Option<ComponentView>| slot->0.id),
                i <= self.components.len() == slots.len(),
                self@ == (StreamView { components: self@.components, ..before }),
                ids@ == slots.take(i as int).filter(idle).map_values(id_of),
                forall|j: int|
                    0 <= j < i ==> #[trigger] self@.components[j] == slot_connecting(slots[j]),
                forall|j: int|
                    i <= j < self.components.len() ==> #[trigger] self@.components[j] == slots[j],
            decreases self.components.len() - i,
        {
            let ghost middle = self@.components;
            let ghost slot = middle[i as int];
            proof {
                search::lemma_filter_step(slots, idle, i as int);
            }
            if let Some(component) = &mut self.components[i] {
                if component.state != ComponentConnectionState::Connecting {
                    ids.push(component.id);
                }
                component.state = ComponentConnectionState::Connecting;
            }
            assert(self@.components =~= middle.update(i as int, slot_connecting(slot)));
            assert(ids@ =~= slots.take(i + 1).filter(idle).map_values(id_of));
            i = i + 1;
        }
        assert(slots.take(i as int) =~= slots);
        assert(self@ =~= before.connecting());
        ids
    }

    /// Set when the requests of every gathering process are to be sent again.
    pub fn set_request_retransmits(&mut self, rto: RequestRto)
        ensures
            final(self)@ == old(self)@.with_rto(rto),
    {
        let ghost before = self@;
        let mut i: usize = 0;
        while i < self.components.len()
            invariant
                before == old(self)@,
                i <= self.components.len() == before.components.len(),
                self@ == (StreamView { components: self@.components, ..before }),
                forall|j: int|
                    0 <= j < i ==> #[trigger] self@.components[j] == slot_with_rto(
                        before.components[j],
                        rto,
                    ),
                forall|j: int|
                    i <= j < self.components.len() ==> #[trigger] self@.components[j]
                        == before.components[j],
            decreases self.components.len() - i,
        {
            let ghost middle = self@.components;
            let ghost slot = middle[i as int];
            if let Some(component) = &mut self.components[i] {
                if let Some(gatherer) = component.gatherer.as_mut() {
                    gatherer.set_request_retransmits(rto);
                }
            }
            assert(self@.components =~= middle.update(i as int, slot_with_rto(slot, rto)));
            i = i + 1;
        }
        assert(self@ =~= before.with_rto(rto));
    }

    /// Whether data for a component goes to its gathering process first.
    pub fn is_gathering(&self, component_id: usize) -> (r: bool)
        ensures
            r == self@.gathers(component_id),
    {
        let Some(component) = self.component_state(component_id) else {
            return false;
        };
        component.gather_state == GatherProgress::InProgress && component.gatherer.is_some()
    }

    /// What has been done with data for a component, from whether its
    /// gathering process, if there is one, took the data.
    pub fn handle_incoming_data(&self, component_id: usize, taken: bool) -> (r: HandleRecvReply)
        ensures
            r == HandleRecvReply::bare(self@.gathers(component_id) && taken),
    {
        if !self.is_gathering(component_id) {
            return HandleRecvReply::default();
        }
        HandleRecvReply::without_data(taken)
    }

    /// The id of the stream.
    pub fn id(&self) -> (r: usize)
        ensures
            r == self@.id,
    {
        self.id
    }

    /// Set the local credentials.
    pub fn set_local_credentials(&mut self, credentials: Credentials)
        ensures
            final(self)@ == (StreamView { local_credentials: Some(credentials), ..old(self)@ }),
    {
        self.local_credentials = Some(credentials);
    }

    /// The local credentials, if they have been set.
    pub fn local_credentials(&self) -> (r: Option<Credentials>)
        ensures
            r == self@.local_credentials,
    {
        self.local_credentials.clone()
    }

    /// Set the credentials of the peer.
    pub fn set_remote_credentials(&mut self, credentials: Credentials)
        ensures
            final(self)@ == (StreamView { remote_credentials: Some(credentials), ..old(self)@ }),
    {
        self.remote_credentials = Some(credentials);
    }

    /// Forget the credentials of the peer.
    pub fn clear_remote_credentials(&mut self)
        ensures
            final(self)@ == (StreamView { remote_credentials: None, ..old(self)@ }),
    {
        self.remote_credentials = None;
    }

    /// The credentials of the peer, if they have been set.
    pub fn remote_credentials(&self) -> (r: Option<Credentials>)
        ensures
            r == self@.remote_credentials,
    {
        self.remote_credentials.clone()
    }
}

} // verus!
