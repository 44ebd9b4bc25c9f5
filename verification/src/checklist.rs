//! The check lists of an agent: what connectivity checks are told, and what
//! they have received.
use crate::candidate;
use crate::candidate::Candidate;
use crate::conncheck::Credentials;
use crate::gathering::{GatheredCandidate, Timed};
use crate::net::{AllocatedSocket, Transmit};
use crate::search::retain;
use crate::time::Instant;
use vstd::prelude::*;

verus! {

/// Application data that has been received for a component.
#[derive(Debug, PartialEq, Eq)]
pub struct PendingRecv {
    pub component_id: usize,
    pub data: Vec<u8>,
}

/// An error response that is to be sent only if no other agent takes the
/// request.
#[derive(Debug, PartialEq, Eq)]
pub struct RecvIgnorable {
    pub transmit: Transmit,
}

/// What has been done with received data.
#[derive(Debug, PartialEq, Eq)]
pub struct HandleRecvReply {
    /// Whether the data has been handled.
    pub handled: bool,
    /// Whether there is more data to be polled for.
    pub have_more_data: bool,
    /// Application data.
    pub data: Option<PendingRecv>,
    /// An error that could be sent.
    pub ignorable: Option<RecvIgnorable>,
}

impl HandleRecvReply {
    /// A reply that carries nothing.
    pub open spec fn bare(handled: bool) -> HandleRecvReply {
        HandleRecvReply { handled, have_more_data: false, data: None, ignorable: None }
    }

    /// A reply that carries nothing.
    pub fn without_data(handled: bool) -> (r: HandleRecvReply)
        ensures
            r == HandleRecvReply::bare(handled),
    {
        HandleRecvReply { handled, have_more_data: false, data: None, ignorable: None }
    }
}

impl Default for HandleRecvReply {
    fn default() -> (r: Self)
        ensures
            r == HandleRecvReply::bare(false),
    {
        HandleRecvReply::without_data(false)
    }
}

/// The check list of a stream.
#[derive(Debug)]
pub struct ConnCheckList {
    pub component_ids: Vec<usize>,
    pub local_credentials: Credentials,
    pub remote_credentials: Option<Credentials>,
    pub local_candidates: Vec<Candidate>,
    pub remote_candidates: Vec<Candidate>,
    /// Whether no more local candidates are to come.
    pub local_end_of_candidates: bool,
    /// Whether no more remote candidates are to come.
    pub remote_end_of_candidates: bool,
    /// When the list last started over, if it ever did.
    pub restarted_at: Option<Instant>,
    /// Application data that has been received, in order.
    pub pending_recv: Vec<PendingRecv>,
    /// The replies to requests for sockets, in order, with the time of each.
    pub allocated: Vec<Timed<AllocatedSocket>>,
}

/// The check list of a stream as a value.
#[verifier::ext_equal]
pub struct CheckListView {
    pub component_ids: Seq<usize>,
    pub local_credentials: Credentials,
    pub remote_credentials: Option<Credentials>,
    pub local_candidates: Seq<Candidate>,
    pub remote_candidates: Seq<Candidate>,
    pub local_end_of_candidates: bool,
    pub remote_end_of_candidates: bool,
    pub restarted_at: Option<Instant>,
    pub pending_recv: Seq<PendingRecv>,
    pub allocated: Seq<Timed<AllocatedSocket>>,
}

/// Whether an id is not the given one.
pub open spec fn other_than(component_id: usize) -> spec_fn(usize) -> bool {
    |id: usize| id != component_id
}

impl CheckListView {
    /// Whether the list knows nothing yet.
    pub open spec fn is_new(self) -> bool {
        &&& self.component_ids.len() == 0
        &&& self.local_credentials.ufrag@.len() == 0
        &&& self.local_credentials.passwd@.len() == 0
        &&& self.remote_credentials is None
        &&& self.local_candidates.len() == 0
        &&& self.remote_candidates.len() == 0
        &&& !self.local_end_of_candidates
        &&& !self.remote_end_of_candidates
        &&& self.restarted_at is None
        &&& self.pending_recv.len() == 0
        &&& self.allocated.len() == 0
    }

    /// Whether the list holds a local candidate for the same path.
    pub open spec fn has_redundant(self, candidate: Candidate) -> bool {
        exists|i: int|
            0 <= i < self.local_candidates.len() && candidate::redundant(
                #[trigger] self.local_candidates[i],
                candidate,
            )
    }

    /// With a component.
    pub open spec fn with_component(self, component_id: usize) -> CheckListView {
        if self.component_ids.contains(component_id) {
            self
        } else {
            CheckListView { component_ids: self.component_ids.push(component_id), ..self }
        }
    }

    /// With a local candidate, unless it is redundant.
    pub open spec fn with_local_candidate(self, candidate: Candidate) -> CheckListView {
        if self.has_redundant(candidate) {
            self
        } else {
            CheckListView { local_candidates: self.local_candidates.push(candidate), ..self }
        }
    }

    /// With a remote candidate.
    pub open spec fn with_remote_candidate(self, candidate: Candidate) -> CheckListView {
        CheckListView { remote_candidates: self.remote_candidates.push(candidate), ..self }
    }

    /// Without the application data that was received first.
    pub open spec fn received(self) -> CheckListView {
        if self.pending_recv.len() > 0 {
            CheckListView { pending_recv: self.pending_recv.drop_first(), ..self }
        } else {
            self
        }
    }

    /// With the reply to a request for a socket.
    pub open spec fn with_socket(self, socket: AllocatedSocket, now: Instant) -> CheckListView {
        CheckListView { allocated: self.allocated.push(Timed { at: now, item: socket }), ..self }
    }

    /// Without anything of a component.
    pub open spec fn without_component(self, component_id: usize) -> CheckListView {
        CheckListView {
            component_ids: self.component_ids.filter(other_than(component_id)),
            local_candidates: self.local_candidates.filter(
                |c: Candidate| c.component_id != component_id,
            ),
            remote_candidates: self.remote_candidates.filter(
                |c: Candidate| c.component_id != component_id,
            ),
            pending_recv: self.pending_recv.filter(
                |p: PendingRecv| p.component_id != component_id,
            ),
            ..self
        }
    }

    /// After a restart: what the peer has told is forgotten, the local
    /// candidates stay, and both sides may add candidates again.
    pub open spec fn restarted(
        self,
        local_credentials: Credentials,
        now: Instant,
    ) -> CheckListView {
        CheckListView {
            local_credentials,
            remote_credentials: None,
            remote_candidates: Seq::empty(),
            local_end_of_candidates: false,
            remote_end_of_candidates: false,
            restarted_at: Some(now),
            ..self
        }
    }
}

impl View for ConnCheckList {
    type V = CheckListView;

    open spec fn view(&self) -> CheckListView {
        CheckListView {
            component_ids: self.component_ids@,
            local_credentials: self.local_credentials,
            remote_credentials: self.remote_credentials,
            local_candidates: self.local_candidates@,
            remote_candidates: self.remote_candidates@,
            local_end_of_candidates: self.local_end_of_candidates,
            remote_end_of_candidates: self.remote_end_of_candidates,
            restarted_at: self.restarted_at,
            pending_recv: self.pending_recv@,
            allocated: self.allocated@,
        }
    }
}

impl ConnCheckList {
    /// A check list that knows nothing yet.
    pub fn new() -> (r: ConnCheckList)
        ensures
            r@.is_new(),
    {
        ConnCheckList {
            component_ids: Vec::new(),
            local_credentials: Credentials::new(String::new(), String::new()),
            remote_credentials: None,
            local_candidates: Vec::new(),
            remote_candidates: Vec::new(),
            local_end_of_candidates: false,
            remote_end_of_candidates: false,
            restarted_at: None,
            pending_recv: Vec::new(),
            allocated: Vec::new(),
        }
    }

    /// The local credentials.
    pub fn local_credentials(&self) -> (r: &Credentials)
        ensures
            *r == self@.local_credentials,
    {
        &self.local_credentials
    }

    /// The credentials of the peer, if they are known.
    pub fn remote_credentials(&self) -> (r: Option<&Credentials>)
        ensures
            r is Some <==> self@.remote_credentials is Some,
            r matches Some(c) ==> *c == self@.remote_credentials->0,
    {
        self.remote_credentials.as_ref()
    }

    /// The local candidates.
    pub fn local_candidates(&self) -> (r: &[Candidate])
        ensures
            r@ == self@.local_candidates,
    {
        self.local_candidates.as_slice()
    }

    /// The candidates of the peer.
    pub fn remote_candidates(&self) -> (r: &[Candidate])
        ensures
            r@ == self@.remote_candidates,
    {
        self.remote_candidates.as_slice()
    }

    /// Add a component.
    pub fn add_component(&mut self, component_id: usize)
        ensures
            final(self)@ == old(self)@.with_component(component_id),
    {
        let mut i: usize = 0;
        while i < self.component_ids.len()
            invariant
                *self == *old(self),
                i <= self.component_ids.len(),
                forall|j: int| 0 <= j < i ==> self.component_ids@[j] != component_id,
            decreases self.component_ids.len() - i,
        {
            if self.component_ids[i] == component_id {
                assert(self@.component_ids.contains(component_id));
                return;
            }
            i = i + 1;
        }
        self.component_ids.push(component_id);
    }

    /// Forget everything of a component.
    pub fn remove_component(&mut self, component_id: usize)
        ensures
            final(self)@ == old(self)@.without_component(component_id),
    {
        let other_id = |id: &usize| -> (b: bool)
            ensures
                b == (*id != component_id),
        { *id != component_id };
        retain(&mut self.component_ids, other_id, Ghost(other_than(component_id)));
        let other_candidate = |c: &Candidate| -> (b: bool)
            ensures
                b == (c.component_id != component_id),
        { c.component_id != component_id };
        retain(
            &mut self.local_candidates,
            other_candidate,
            Ghost(|c: Candidate| c.component_id != component_id),
        );
        let other_candidate = |c: &Candidate| -> (b: bool)
            ensures
                b == (c.component_id != component_id),
        { c.component_id != component_id };
        retain(
            &mut self.remote_candidates,
            other_candidate,
            Ghost(|c: Candidate| c.component_id != component_id),
        );
        let other_data = |p: &PendingRecv| -> (b: bool)
            ensures
                b == (p.component_id != component_id),
        { p.component_id != component_id };
        retain(
            &mut self.pending_recv,
            other_data,
            Ghost(|p: PendingRecv| p.component_id != component_id),
        );
    }

    /// Set the local credentials.
    pub fn set_local_credentials(&mut self, credentials: Credentials)
        ensures
            final(self)@ == (CheckListView { local_credentials: credentials, ..old(self)@ }),
    {
        self.local_credentials = credentials;
    }

    /// Set the credentials of the peer.
    pub fn set_remote_credentials(&mut self, credentials: Credentials)
        ensures
            final(self)@ == (CheckListView { remote_credentials: Some(credentials), ..old(self)@ }),
    {
        self.remote_credentials = Some(credentials);
    }

    /// Add a local candidate, unless there is one for the same path.  Returns
    /// whether the candidate was added.
    pub fn add_local_candidate(&mut self, candidate: Candidate) -> (r: bool)
        ensures
            r == !old(self)@.has_redundant(candidate),
            final(self)@ == old(self)@.with_local_candidate(candidate),
    {
        let mut i: usize = 0;
        while i < self.local_candidates.len()
            invariant
                *self == *old(self),
                i <= self.local_candidates.len(),
                forall|j: int|
                    0 <= j < i ==> !candidate::redundant(
                        #[trigger] self.local_candidates@[j],
                        candidate,
                    ),
            decreases self.local_candidates.len() - i,
        {
            let other = &self.local_candidates[i];
            if other.component_id == candidate.component_id && other.transport_type
                == candidate.transport_type && other.address == candidate.address
                && other.base_address == candidate.base_address {
                assert(candidate::redundant(self@.local_candidates[i as int], candidate));
                return false;
            }
            i = i + 1;
        }
        self.local_candidates.push(candidate);
        true
    }

    /// Add a local candidate that gathering has found.  Returns whether the
    /// candidate was added.
    pub fn add_local_gathered_candidate(&mut self, gathered: GatheredCandidate) -> (r: bool)
        ensures
            r == !old(self)@.has_redundant(gathered.candidate),
            final(self)@ == old(self)@.with_local_candidate(gathered.candidate),
    {
        self.add_local_candidate(gathered.candidate)
    }

    /// Add a candidate of the peer.
    pub fn add_remote_candidate(&mut self, candidate: Candidate)
        ensures
            final(self)@ == old(self)@.with_remote_candidate(candidate),
    {
        self.remote_candidates.push(candidate);
    }

    /// Take note that no more local candidates are to come.
    pub fn end_of_local_candidates(&mut self)
        ensures
            final(self)@ == (CheckListView { local_end_of_candidates: true, ..old(self)@ }),
    {
        self.local_end_of_candidates = true;
    }

    /// Take note that no more candidates of the peer are to come.
    pub fn end_of_remote_candidates(&mut self)
        ensures
            final(self)@ == (CheckListView { remote_end_of_candidates: true, ..old(self)@ }),
    {
        self.remote_end_of_candidates = true;
    }

    /// Take the application data that was received first.
    pub fn poll_recv(&mut self) -> (r: Option<PendingRecv>)
        ensures
            r == if old(self)@.pending_recv.len() > 0 {
                Some(old(self)@.pending_recv[0])
            } else {
                None
            },
            final(self)@ == old(self)@.received(),
    {
        if self.pending_recv.len() == 0 {
            return None;
        }
        let data = self.pending_recv.remove(0);
        assert(self.pending_recv@ =~= old(self).pending_recv@.drop_first());
        Some(data)
    }

    /// Pass on the reply to a request for a socket.
    pub fn allocated_socket(&mut self, socket: AllocatedSocket, now: Instant)
        ensures
            final(self)@ == old(self)@.with_socket(socket, now),
    {
        self.allocated.push(Timed { at: now, item: socket });
    }

    /// Start over with new local credentials.
    pub fn restart(&mut self, local_credentials: Credentials, now: Instant)
        ensures
            final(self)@ == old(self)@.restarted(local_credentials, now),
    {
        self.local_credentials = local_credentials;
        self.remote_credentials = None;
        self.remote_candidates.clear();
        self.local_end_of_candidates = false;
        self.remote_end_of_candidates = false;
        self.restarted_at = Some(now);
    }
}

/// The check lists of an agent, each known by its index.
#[derive(Debug)]
pub struct ConnCheckListSet {
    pub lists: Vec<ConnCheckList>,
    /// Error responses that are to be sent, in order.
    pub ignorable: Vec<RecvIgnorable>,
}

/// The check lists of an agent as values.
#[verifier::ext_equal]
pub struct CheckListSetView {
    pub lists: Seq<CheckListView>,
    pub ignorable: Seq<RecvIgnorable>,
}

impl CheckListSetView {
    /// With one check list replaced.
    pub open spec fn with_list(self, checklist_id: usize, list: CheckListView) -> CheckListSetView {
        CheckListSetView { lists: self.lists.update(checklist_id as int, list), ..self }
    }
}

impl View for ConnCheckListSet {
    type V = CheckListSetView;

    open spec fn view(&self) -> CheckListSetView {
        CheckListSetView {
            lists: self.lists@.map_values(|list: ConnCheckList| list@),
            ignorable: self.ignorable@,
        }
    }
}

impl ConnCheckListSet {
    /// No check lists.
    pub fn new() -> (r: ConnCheckListSet)
        ensures
            r@ == (CheckListSetView { lists: Seq::empty(), ignorable: Seq::empty() }),
    {
        ConnCheckListSet { lists: Vec::new(), ignorable: Vec::new() }
    }

    /// Add a check list that knows nothing yet.  Returns its id.
    pub fn new_list(&mut self) -> (r: usize)
        ensures
            r == old(self)@.lists.len(),
            final(self)@.lists.len() == old(self)@.lists.len() + 1,
            final(self)@.lists.take(old(self)@.lists.len() as int) == old(self)@.lists,
            final(self)@.ignorable == old(self)@.ignorable,
            final(self)@.lists.last().is_new(),
    {
        let id = self.lists.len();
        self.lists.push(ConnCheckList::new());
        id
    }

    /// A check list.
    pub fn list(&self, checklist_id: usize) -> (r: Option<&ConnCheckList>)
        ensures
            r is Some <==> checklist_id < self@.lists.len(),
            r matches Some(list) ==> list@ == self@.lists[checklist_id as int],
    {
        if checklist_id < self.lists.len() {
            Some(&self.lists[checklist_id])
        } else {
            None
        }
    }

    /// Mutable access to a check list.
    pub fn mut_list(&mut self, checklist_id: usize) -> (r: Option<&mut ConnCheckList>)
        ensures
            match r {
                Some(list) => {
                    &&& checklist_id < old(self)@.lists.len()
                    &&& list@ == old(self)@.lists[checklist_id as int]
                    &&& final(self)@ == old(self)@.with_list(checklist_id, final(list)@)
                },
                None => checklist_id >= old(self)@.lists.len() && *final(self) == *old(self),
            },
    {
        if checklist_id < self.lists.len() {
            Some(&mut self.lists[checklist_id])
        } else {
            None
        }
    }

    /// Queue an error response.
    pub fn send_ignorable_error(&mut self, ignorable: RecvIgnorable)
        ensures
            final(self)@ == (CheckListSetView {
                ignorable: old(self)@.ignorable.push(ignorable),
                ..old(self)@
            }),
    {
        self.ignorable.push(ignorable);
    }
}

} // verus!
