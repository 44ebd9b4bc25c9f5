//! ICE candidates.
use crate::net::{SocketAddr, TransportType};
use vstd::prelude::*;

verus! {

/// How a candidate was obtained.
#[derive(Debug, Clone, Copy, PartialEq, Eq, Structural)]
pub enum CandidateType {
    Host,
    PeerReflexive,
    ServerReflexive,
    Relayed,
}

/// The role that a TCP candidate takes when the connection is opened.
#[derive(Debug, Clone, Copy, PartialEq, Eq, Structural)]
pub enum TcpType {
    Active,
    Passive,
    So,
}

/// A transport address at which a peer may be reached.
#[derive(Debug, PartialEq, Eq)]
pub struct Candidate {
    pub component_id: usize,
    pub candidate_type: CandidateType,
    pub transport_type: TransportType,
    pub foundation: String,
    pub priority: u32,
    pub address: SocketAddr,
    /// The local address that data is sent from.
    pub base_address: SocketAddr,
    pub related_address: Option<SocketAddr>,
    pub tcp_type: Option<TcpType>,
}

impl Clone for Candidate {
    fn clone(&self) -> (r: Self)
        ensures
            r == *self,
    {
        Candidate {
            component_id: self.component_id,
            candidate_type: self.candidate_type,
            transport_type: self.transport_type,
            foundation: self.foundation.clone(),
            priority: self.priority,
            address: self.address,
            base_address: self.base_address,
            related_address: self.related_address,
            tcp_type: self.tcp_type,
        }
    }
}

impl Candidate {
    /// Start building a candidate.  Its base is its own address, its priority
    /// is zero, and it has neither a related address nor a TCP role.
    pub fn builder(
        component_id: usize,
        candidate_type: CandidateType,
        transport_type: TransportType,
        foundation: &str,
        address: SocketAddr,
    ) -> (r: CandidateBuilder)
        ensures
            r.candidate.component_id == component_id,
            r.candidate.candidate_type == candidate_type,
            r.candidate.transport_type == transport_type,
            r.candidate.foundation@ == foundation@,
            r.candidate.priority == 0,
            r.candidate.address == address,
            r.candidate.base_address == address,
            r.candidate.related_address is None,
            r.candidate.tcp_type is None,
    {
        CandidateBuilder {
            candidate: Candidate {
                component_id,
                candidate_type,
                transport_type,
                foundation: foundation.to_owned(),
                priority: 0,
                address,
                base_address: address,
                related_address: None,
                tcp_type: None,
            },
        }
    }
}

/// A candidate under construction.
#[derive(Debug)]
pub struct CandidateBuilder {
    pub candidate: Candidate,
}

impl CandidateBuilder {
    /// Set the priority.
    pub fn priority(self, priority: u32) -> (r: CandidateBuilder)
        ensures
            r.candidate == (Candidate { priority, ..self.candidate }),
    {
        CandidateBuilder { candidate: Candidate { priority, ..self.candidate } }
    }

    /// The finished candidate.
    pub fn build(self) -> (r: Candidate)
        ensures
            r == self.candidate,
    {
        self.candidate
    }
}

/// Whether two local candidates stand for the same path: the same transport
/// address and the same base, for the same component (RFC 8445 section 5.1.3).
pub open spec fn redundant(a: Candidate, b: Candidate) -> bool {
    &&& a.component_id == b.component_id
    &&& a.transport_type == b.transport_type
    &&& a.address == b.address
    &&& a.base_address == b.base_address
}

} // verus!
