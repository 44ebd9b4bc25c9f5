//! What the candidate gathering of a component has produced.
use crate::candidate::Candidate;
use crate::net::{AllocatedSocket, SocketAddr, Transmit, TransportType};
use crate::time::{Duration, Instant};
use vstd::prelude::*;

verus! {

/// How often and for how long a request is sent again.
#[derive(Debug, Clone, Copy, PartialEq, Eq, Structural)]
pub struct RequestRto {
    pub initial: Duration,
    pub max: Duration,
    pub retransmits: u32,
    pub final_retransmit_timeout: Duration,
}

/// A local candidate that has been gathered.
#[derive(Debug, PartialEq, Eq)]
pub struct GatheredCandidate {
    pub candidate: Candidate,
}

/// A socket that gathering needs.
#[derive(Debug, Clone, Copy, PartialEq, Eq, Structural)]
pub struct GatherSocket {
    pub component_id: usize,
    pub transport: TransportType,
    pub local_addr: SocketAddr,
    pub remote_addr: SocketAddr,
}

/// Something that gathering has to report.
#[derive(Debug, PartialEq, Eq)]
pub enum GatherEvent {
    /// A socket is needed.
    AllocateSocket(GatherSocket),
    /// A candidate has been found.
    NewCandidate(GatheredCandidate),
    /// The component with the given id has no more candidates to come.
    Complete(usize),
}

/// The answer of a gathering process that is polled.
#[derive(Debug, PartialEq, Eq)]
pub enum GatherPoll {
    /// A socket is needed.
    AllocateSocket(GatherSocket),
    /// A candidate has been found.
    NewCandidate(GatheredCandidate),
    /// The component with the given id has no more candidates to come.
    Complete(usize),
    /// There is nothing to report before the given point in time.
    WaitUntil(Instant),
    /// There is nothing to report at all.
    Finished,
}

impl GatherEvent {
    /// The answer that reports this event.
    pub open spec fn answer(self) -> GatherPoll {
        match self {
            GatherEvent::AllocateSocket(socket) => GatherPoll::AllocateSocket(socket),
            GatherEvent::NewCandidate(candidate) => GatherPoll::NewCandidate(candidate),
            GatherEvent::Complete(component_id) => GatherPoll::Complete(component_id),
        }
    }

    /// The answer that reports this event.
    pub fn into_answer(self) -> (r: GatherPoll)
        ensures
            r == self.answer(),
    {
        match self {
            GatherEvent::AllocateSocket(socket) => GatherPoll::AllocateSocket(socket),
            GatherEvent::NewCandidate(candidate) => GatherPoll::NewCandidate(candidate),
            GatherEvent::Complete(component_id) => GatherPoll::Complete(component_id),
        }
    }
}

/// Something that is to be handed out from a point in time on.
#[derive(Debug, PartialEq, Eq)]
pub struct Timed<T> {
    pub at: Instant,
    pub item: T,
}

/// The queues between a stream and the gathering process of one component.
///
/// The process puts what it has to report and to send at the end of `events`
/// and `transmits`, and takes what it is told from `rto` and `allocated`.
#[derive(Debug)]
pub struct Gatherer {
    /// When requests are to be sent again.
    pub rto: RequestRto,
    /// What is to be reported, in order.
    pub events: Vec<Timed<GatherEvent>>,
    /// What is to be sent, in order.
    pub transmits: Vec<Timed<Transmit>>,
    /// The replies to requests for sockets, in order.
    pub allocated: Vec<AllocatedSocket>,
}

/// The queues as values.
#[verifier::ext_equal]
pub struct GathererView {
    pub rto: RequestRto,
    pub events: Seq<Timed<GatherEvent>>,
    pub transmits: Seq<Timed<Transmit>>,
    pub allocated: Seq<AllocatedSocket>,
}

impl GathererView {
    /// Whether there is something to report.
    pub open spec fn reports(self, now: Instant) -> bool {
        self.events.len() > 0 && self.events[0].at.nanos <= now.nanos
    }

    /// Whether there is something to send.
    pub open spec fn sends(self, now: Instant) -> bool {
        self.transmits.len() > 0 && self.transmits[0].at.nanos <= now.nanos
    }

    /// The point in time at which the next thing is to be reported or sent.
    pub open spec fn wake(self) -> Option<Instant> {
        if self.events.len() == 0 {
            if self.transmits.len() == 0 {
                None
            } else {
                Some(self.transmits[0].at)
            }
        } else if self.transmits.len() > 0 && self.transmits[0].at.nanos < self.events[0].at.nanos {
            Some(self.transmits[0].at)
        } else {
            Some(self.events[0].at)
        }
    }

    /// The answer to a poll.
    pub open spec fn answer(self, now: Instant) -> GatherPoll {
        if self.reports(now) {
            self.events[0].item.answer()
        } else {
            match self.wake() {
                Some(wait) => GatherPoll::WaitUntil(wait),
                None => GatherPoll::Finished,
            }
        }
    }

    /// After a poll: what has been reported is gone.
    pub open spec fn polled(self, now: Instant) -> GathererView {
        if self.reports(now) {
            GathererView { events: self.events.drop_first(), ..self }
        } else {
            self
        }
    }

    /// After a poll for something to send: what is sent is gone.
    pub open spec fn transmitted(self, now: Instant) -> GathererView {
        if self.sends(now) {
            GathererView { transmits: self.transmits.drop_first(), ..self }
        } else {
            self
        }
    }
}

impl View for Gatherer {
    type V = GathererView;

    open spec fn view(&self) -> GathererView {
        GathererView {
            rto: self.rto,
            events: self.events@,
            transmits: self.transmits@,
            allocated: self.allocated@,
        }
    }
}

impl Gatherer {
    /// Empty queues.
    pub fn new(rto: RequestRto) -> (r: Gatherer)
        ensures
            r@ == (GathererView {
                rto,
                events: Seq::empty(),
                transmits: Seq::empty(),
                allocated: Seq::empty(),
            }),
    {
        Gatherer { rto, events: Vec::new(), transmits: Vec::new(), allocated: Vec::new() }
    }

    /// Take the next thing to report.
    pub fn poll(&mut self, now: Instant) -> (r: GatherPoll)
        ensures
            r == old(self)@.answer(now),
            final(self)@ == old(self)@.polled(now),
    {
        if self.events.len() == 0 {
            if self.transmits.len() == 0 {
                return GatherPoll::Finished;
            }
            return GatherPoll::WaitUntil(self.transmits[0].at);
        }
        let at = self.events[0].at;
        if at.nanos <= now.nanos {
            let timed = self.events.remove(0);
            assert(self.events@ =~= old(self).events@.drop_first());
            return timed.item.into_answer();
        }
        if self.transmits.len() > 0 && self.transmits[0].at.nanos < at.nanos {
            return GatherPoll::WaitUntil(self.transmits[0].at);
        }
        GatherPoll::WaitUntil(at)
    }

    /// Take the next thing to send.
    pub fn poll_transmit(&mut self, now: Instant) -> (r: Option<Transmit>)
        ensures
            r == if old(self)@.sends(now) {
                Some(old(self)@.transmits[0].item)
            } else {
                None
            },
            final(self)@ == old(self)@.transmitted(now),
    {
        if self.transmits.len() == 0 || self.transmits[0].at.nanos > now.nanos {
            return None;
        }
        let timed = self.transmits.remove(0);
        assert(self.transmits@ =~= old(self).transmits@.drop_first());
        Some(timed.item)
    }

    /// Pass on the reply to a request for a socket.
    pub fn allocated_socket(&mut self, socket: AllocatedSocket)
        ensures
            final(self)@ == (GathererView {
                allocated: old(self)@.allocated.push(socket),
                ..old(self)@
            }),
    {
        self.allocated.push(socket);
    }

    /// Set when requests are to be sent again.
    pub fn set_request_retransmits(&mut self, rto: RequestRto)
        ensures
            final(self)@ == (GathererView { rto, ..old(self)@ }),
    {
        self.rto = rto;
    }
}

} // verus!
