//! Consent freshness (RFC 7675): a selected pair is used only while the peer
//! keeps answering.
use crate::candidate::Candidate;
use crate::conncheck;
use crate::conncheck::{generate_binding_request, Credentials};
use crate::message;
use crate::message::finish;
use crate::net::SocketAddr;
use crate::rand::random_u32;
use crate::search;
use crate::search::retain;
use crate::time;
use crate::time::{Duration, Instant};
use vstd::prelude::*;

verus! {

/// Default interval between consent checks, in seconds.
pub const DEFAULT_CONSENT_FRESHNESS_INTERVAL: u64 = 5;

/// Default time after which consent expires if no traffic is received, in
/// seconds.
pub const DEFAULT_CONSENT_FRESHNESS_TIMEOUT: u64 = 30;

/// Shortest interval between consent checks (RFC 7675 section 5.1), in
/// seconds.
pub const MINIMUM_CONSENT_INTERVAL: u64 = 4;

/// How long to wait before polling again where nothing is tracked, in seconds.
pub const IDLE_WAIT: u64 = 3600;

/// Number of nanoseconds in a second.
pub const NANOS_PER_SEC: u64 = 1_000_000_000;

/// Configuration for [`ConsentFreshness`].
#[derive(Debug, Clone, Copy, PartialEq, Eq, Structural)]
pub struct Config {
    /// The interval between periodic Binding Requests.
    pub interval: Duration,
    /// The timeout after which consent expires.
    pub timeout: Duration,
}

impl Default for Config {
    fn default() -> (r: Self)
        ensures
            r.interval.nanos == DEFAULT_CONSENT_FRESHNESS_INTERVAL * NANOS_PER_SEC,
            r.timeout.nanos == DEFAULT_CONSENT_FRESHNESS_TIMEOUT * NANOS_PER_SEC,
    {
        Config {
            interval: Duration::from_secs(DEFAULT_CONSENT_FRESHNESS_INTERVAL),
            timeout: Duration::from_secs(DEFAULT_CONSENT_FRESHNESS_TIMEOUT),
        }
    }
}

impl Config {
    /// The nanoseconds between two checks for a random `draw`: the draw picks
    /// a factor from 0.8 up to 1.2, evenly, and the result is no less than the
    /// minimum interval.
    pub open spec fn interval_nanos(self, draw: u32) -> int {
        let scaled = self.interval.nanos * (0x2_0000_0000 + draw) / 0x2_8000_0000;
        let least = MINIMUM_CONSENT_INTERVAL * NANOS_PER_SEC;
        if scaled < least {
            least
        } else {
            scaled
        }
    }

    /// Whether the interval can be scaled.  Every interval of less than 2^64
    /// seconds can.
    pub open spec fn scalable(self) -> bool {
        self.interval.nanos * 0x3_0000_0000 <= u128::MAX
    }

    /// When the next check is due that is scheduled at `now`.
    pub open spec fn next_send(self, now: Instant, draw: u32) -> Instant {
        Instant { nanos: (now.nanos + self.interval_nanos(draw)) as i64 }
    }

    /// Whether a check can be scheduled at `now`, whatever the draw.
    pub open spec fn schedulable(self, now: Instant) -> bool {
        forall|draw: u32| #[trigger]
            self.interval_nanos(draw) <= i64::MAX && now.nanos + self.interval_nanos(draw)
                <= i64::MAX
    }
}

/// What [`ConsentFreshness::poll`] asks for.
#[derive(Debug, Clone, Copy, PartialEq, Eq, Structural)]
pub enum ConsentFreshnessPoll {
    /// There is nothing to do before the given point in time.
    WaitUntil(Instant),
    /// A consent check should be sent to the peer.  The caller obtains it from
    /// [`ConsentFreshness::build_consent_check`].
    SendCheck { stream_id: usize, component_id: usize },
    /// The component has not received any traffic within the timeout.  The
    /// caller should treat its connection as failed.
    ConsentExpired { stream_id: usize, component_id: usize },
    /// The peer has revoked consent.  The caller should treat the component as
    /// failed.
    ConsentRevoked { stream_id: usize, component_id: usize },
}

/// A consent check that is ready to be sent.
#[derive(Debug)]
pub struct ConsentCheck {
    /// Local candidate.
    pub local: Candidate,
    /// The Binding request.
    pub msg: Vec<u8>,
    /// Destination address.
    pub to: SocketAddr,
}

/// The state of the process for one component.
#[derive(Debug)]
pub struct Entry {
    pub stream_id: usize,
    pub component_id: usize,
    pub controlling: bool,
    pub tie_breaker: u64,
    pub local: Candidate,
    pub local_creds: Credentials,
    pub remote_creds: Credentials,
    pub to: SocketAddr,
    pub last_consent_received: Instant,
    pub next_send: Instant,
    pub revoked: bool,
    pub local_priority: u32,
}

impl Entry {
    /// Whether this is the entry of the given component.
    pub open spec fn tracks(self, stream_id: usize, component_id: usize) -> bool {
        self.stream_id == stream_id && self.component_id == component_id
    }

    /// The point in time at which consent expires.
    pub open spec fn deadline(self, config: Config) -> int {
        self.last_consent_received.nanos + config.timeout.nanos
    }

    /// Whether consent has expired.
    pub open spec fn expired(self, config: Config, now: Instant) -> bool {
        now.nanos >= self.deadline(config)
    }

    /// Whether consent has expired or a check is to be sent.
    pub open spec fn due(self, config: Config, now: Instant) -> bool {
        self.expired(config, now) || now.nanos >= self.next_send.nanos
    }

    /// What a consent check for this entry says.
    pub open spec fn check(self) -> conncheck::CheckParameters {
        conncheck::CheckParameters {
            priority: self.local_priority,
            nominate: false,
            controlling: self.controlling,
            tie_breaker: self.tie_breaker,
            local_credentials: self.local_creds,
            remote_credentials: self.remote_creds,
        }
    }

    /// Whether a consent check can be written for this entry.
    pub open spec fn checkable(self) -> bool {
        message::username_fits(conncheck::check_username(self.local_creds, self.remote_creds))
    }

    /// The earliest point in time at which something is due.
    pub open spec fn wake(self, config: Config) -> int {
        if self.deadline(config) <= self.next_send.nanos {
            self.deadline(config)
        } else {
            self.next_send.nanos as int
        }
    }
}

/// The process as a value: what is tracked, in order, and how.
#[verifier::ext_equal]
pub struct ConsentView {
    pub entries: Seq<Entry>,
    pub config: Config,
}

impl ConsentView {
    /// The first entry whose consent has been revoked.
    pub open spec fn first_revoked(self) -> Option<int> {
        search::first(self.entries, |e: Entry| e.revoked)
    }

    /// The first entry for which something is due.
    pub open spec fn first_due(self, now: Instant) -> Option<int> {
        search::first(self.entries, |e: Entry| e.due(self.config, now))
    }

    /// The first entry of the given component.
    pub open spec fn first_tracking(self, stream_id: usize, component_id: usize) -> Option<int> {
        search::first(self.entries, |e: Entry| e.tracks(stream_id, component_id))
    }

    /// The first entry of a component with the given id, in any stream.
    pub open spec fn first_component(self, component_id: usize) -> Option<int> {
        search::first(self.entries, |e: Entry| e.component_id == component_id)
    }

    /// The first entry of the given component, if a check can be written for
    /// it.
    pub open spec fn first_checkable(self, stream_id: usize, component_id: usize) -> Option<int> {
        match self.first_tracking(stream_id, component_id) {
            Some(i) => if self.entries[i].checkable() {
                Some(i)
            } else {
                None
            },
            None => None,
        }
    }

    /// After a check has been built, with the next one due at `next_send`.
    pub open spec fn checked(
        self,
        stream_id: usize,
        component_id: usize,
        next_send: Instant,
    ) -> ConsentView {
        match self.first_checkable(stream_id, component_id) {
            Some(i) => self.changed(i, Entry { next_send, ..self.entries[i] }),
            None => self,
        }
    }

    /// Whether `r` is the consent check for a component.
    pub open spec fn builds(
        self,
        stream_id: usize,
        component_id: usize,
        r: Option<ConsentCheck>,
    ) -> bool {
        match (self.first_checkable(stream_id, component_id), r) {
            (Some(i), Some(check)) => {
                &&& check.local == self.entries[i].local
                &&& check.to == self.entries[i].to
                &&& conncheck::is_check(check.msg@, self.entries[i].check())
            },
            (None, None) => true,
            _ => false,
        }
    }

    /// Without the given component.
    pub open spec fn stopped(self, stream_id: usize, component_id: usize) -> ConsentView {
        ConsentView {
            entries: self.entries.filter(|e: Entry| !e.tracks(stream_id, component_id)),
            ..self
        }
    }

    /// Without the given components of a stream.
    pub open spec fn stopped_all(
        self,
        stream_id: usize,
        component_ids: Seq<usize>,
    ) -> ConsentView {
        ConsentView {
            entries: self.entries.filter(
                |e: Entry| e.stream_id != stream_id || !component_ids.contains(e.component_id),
            ),
            ..self
        }
    }

    /// With `entry` tracked in place of whatever was tracked for its
    /// component.
    pub open spec fn started(self, entry: Entry) -> ConsentView {
        let rest = self.stopped(entry.stream_id, entry.component_id);
        ConsentView { entries: rest.entries.push(entry), ..self }
    }

    /// With the entry at `index` replaced.
    pub open spec fn changed(self, index: int, entry: Entry) -> ConsentView {
        ConsentView { entries: self.entries.update(index, entry), ..self }
    }

    /// After a response at `now` for the first entry of a component, with the
    /// next check due at `next_send`.
    pub open spec fn refreshed(
        self,
        component_id: usize,
        now: Instant,
        next_send: Instant,
    ) -> ConsentView {
        match self.first_component(component_id) {
            Some(i) => self.changed(
                i,
                Entry { last_consent_received: now, next_send, ..self.entries[i] },
            ),
            None => self,
        }
    }

    /// After the peer has revoked consent for a component.
    pub open spec fn revoked(self, stream_id: usize, component_id: usize) -> ConsentView {
        match self.first_tracking(stream_id, component_id) {
            Some(i) => self.changed(i, Entry { revoked: true, ..self.entries[i] }),
            None => self,
        }
    }

    /// Without the entry at `index`, whose place the last entry takes.
    pub open spec fn swap_removed(self, index: int) -> ConsentView {
        ConsentView {
            entries: self.entries.update(index, self.entries.last()).drop_last(),
            ..self
        }
    }

    /// After a poll: the first revoked entry leaves, otherwise nothing changes.
    pub open spec fn polled(self) -> ConsentView {
        match self.first_revoked() {
            Some(i) => self.swap_removed(i),
            None => self,
        }
    }

    /// Whether `wait` is the earliest point in time at which something is due
    /// for any entry.
    pub open spec fn earliest(self, wait: Instant) -> bool {
        &&& exists|i: int|
            0 <= i < self.entries.len() && #[trigger] self.entries[i].wake(self.config)
                == wait.nanos
        &&& forall|i: int|
            0 <= i < self.entries.len() ==> wait.nanos <= #[trigger] self.entries[i].wake(
                self.config,
            )
    }

    /// Whether `r` is the answer to a poll at `now`.
    pub open spec fn answers(self, now: Instant, r: ConsentFreshnessPoll) -> bool {
        match (self.first_revoked(), self.first_due(now)) {
            (Some(i), _) => r == (ConsentFreshnessPoll::ConsentRevoked {
                stream_id: self.entries[i].stream_id,
                component_id: self.entries[i].component_id,
            }),
            (None, Some(i)) => if self.entries[i].expired(self.config, now) {
                r == (ConsentFreshnessPoll::ConsentExpired {
                    stream_id: self.entries[i].stream_id,
                    component_id: self.entries[i].component_id,
                })
            } else {
                r == (ConsentFreshnessPoll::SendCheck {
                    stream_id: self.entries[i].stream_id,
                    component_id: self.entries[i].component_id,
                })
            },
            (None, None) => match r {
                ConsentFreshnessPoll::WaitUntil(wait) => if self.entries.len() == 0 {
                    wait.nanos == now.nanos + IDLE_WAIT * NANOS_PER_SEC
                } else {
                    self.earliest(wait)
                },
                _ => false,
            },
        }
    }

    /// Whether the points in time that a poll at `now` looks at can be
    /// represented: the deadlines up to the first entry for which something is
    /// due and, where nothing is, the end of the idle wait.
    pub open spec fn pollable(self, now: Instant) -> bool {
        self.first_revoked() is None ==> {
            &&& forall|i: int|
                0 <= i < self.entries.len() && (self.first_due(now) matches Some(k) ==> i <= k)
                    ==> time::reaches(
                    (#[trigger] self.entries[i]).last_consent_received,
                    self.config.timeout,
                )
            &&& self.first_due(now) is None ==> now.nanos + IDLE_WAIT * NANOS_PER_SEC <= i64::MAX
        }
    }
}

/// The consent freshness process.
#[derive(Debug)]
pub struct ConsentFreshness {
    pub entries: Vec<Entry>,
    pub config: Config,
}

impl View for ConsentFreshness {
    type V = ConsentView;

    open spec fn view(&self) -> ConsentView {
        ConsentView { entries: self.entries@, config: self.config }
    }
}

impl ConsentFreshness {
    /// A process that tracks nothing yet.
    pub fn new(config: Config) -> (r: ConsentFreshness)
        ensures
            r@ == (ConsentView { entries: Seq::empty(), config }),
    {
        ConsentFreshness { entries: Vec::new(), config }
    }

    /// The interval until the next check, for a random number `draw`: 0.8 to
    /// 1.2 times the configured one, and no less than the minimum.
    pub fn interval_for(&self, draw: u32) -> (r: Duration)
        requires
            self@.config.scalable(),
        ensures
            r.nanos == self@.config.interval_nanos(draw),
    {
        let interval = self.config.interval.nanos;
        let factor: u128 = 0x2_0000_0000 + draw as u128;
        assert(interval * factor <= interval * 0x3_0000_0000) by (nonlinear_arith)
            requires
                factor <= 0x3_0000_0000,
                0 <= interval,
        ;
        let scaled = interval * factor / 0x2_8000_0000;
        let least = Duration::from_secs(MINIMUM_CONSENT_INTERVAL);
        if scaled < least.nanos {
            least
        } else {
            Duration::from_nanos(scaled)
        }
    }

    /// A randomised interval until the next check (RFC 7675 section 5.1).
    fn next_interval(&self) -> (r: Duration)
        requires
            self@.config.scalable(),
        ensures
            exists|draw: u32| r.nanos == #[trigger] self@.config.interval_nanos(draw),
    {
        let draw = random_u32();
        self.interval_for(draw)
    }

    /// Begin tracking consent for a newly selected pair, in place of whatever
    /// was tracked for the component.
    pub fn start(
        &mut self,
        stream_id: usize,
        component_id: usize,
        local: Candidate,
        to: SocketAddr,
        local_creds: Credentials,
        remote_creds: Credentials,
        controlling: bool,
        tie_breaker: u64,
        now: Instant,
    )
        requires
            old(self)@.config.scalable(),
            old(self)@.config.schedulable(now),
        ensures
            exists|draw: u32|
                final(self)@ == old(self)@.started(
                    Entry {
                        stream_id,
                        component_id,
                        controlling,
                        tie_breaker,
                        local,
                        local_creds,
                        remote_creds,
                        to,
                        last_consent_received: now,
                        next_send: #[trigger] old(self)@.config.next_send(now, draw),
                        revoked: false,
                        local_priority: local.priority,
                    },
                ),
    {
        let interval = self.next_interval();
        proof {
            let draw = choose|draw: u32| interval.nanos == self@.config.interval_nanos(draw);
            assert(time::later(now, interval) == self@.config.next_send(now, draw));
        }
        self.start_with_interval(
            stream_id,
            component_id,
            local,
            to,
            local_creds,
            remote_creds,
            controlling,
            tie_breaker,
            now,
            interval,
        );
    }

    /// Begin tracking consent as [`start`](ConsentFreshness::start) does, with
    /// the first check due after the given interval.
    pub fn start_with_interval(
        &mut self,
        stream_id: usize,
        component_id: usize,
        local: Candidate,
        to: SocketAddr,
        local_creds: Credentials,
        remote_creds: Credentials,
        controlling: bool,
        tie_breaker: u64,
        now: Instant,
        interval: Duration,
    )
        requires
            time::reaches(now, interval),
        ensures
            final(self)@ == old(self)@.started(
                Entry {
                    stream_id,
                    component_id,
                    controlling,
                    tie_breaker,
                    local,
                    local_creds,
                    remote_creds,
                    to,
                    last_consent_received: now,
                    next_send: time::later(now, interval),
                    revoked: false,
                    local_priority: local.priority,
                },
            ),
    {
        let local_priority = local.priority;
        self.stop(stream_id, component_id);
        self.entries.push(
            Entry {
                stream_id,
                component_id,
                controlling,
                tie_breaker,
                local,
                local_creds,
                remote_creds,
                to,
                last_consent_received: now,
                next_send: now + interval,
                revoked: false,
                local_priority,
            },
        );
    }

    /// Stop monitoring consent for a component.
    pub fn stop(&mut self, stream_id: usize, component_id: usize)
        ensures
            final(self)@ == old(self)@.stopped(stream_id, component_id),
    {
        let keep = |e: &Entry| -> (b: bool)
            ensures
                b == !e.tracks(stream_id, component_id),
        { e.stream_id != stream_id || e.component_id != component_id };
        retain(&mut self.entries, keep, Ghost(|e: Entry| !e.tracks(stream_id, component_id)));
    }

    /// Clear all entries.
    pub fn close(&mut self)
        ensures
            final(self)@ == (ConsentView { entries: Seq::empty(), ..old(self)@ }),
    {
        self.entries.clear();
    }

    /// The index of the first entry of a component.
    fn find(&self, stream_id: usize, component_id: usize) -> (r: Option<usize>)
        ensures
            match r {
                Some(i) => self@.first_tracking(stream_id, component_id) == Some(i as int)
                    && search::is_first(
                    self@.entries,
                    |e: Entry| e.tracks(stream_id, component_id),
                    i as int,
                ),
                None => self@.first_tracking(stream_id, component_id) is None,
            },
    {
        let ghost tracks = |e: Entry| e.tracks(stream_id, component_id);
        let mut i: usize = 0;
        while i < self.entries.len()
            invariant
                i <= self.entries.len(),
                tracks == (|e: Entry| e.tracks(stream_id, component_id)),
                forall|j: int| #![trigger self.entries@[j]] 0 <= j < i ==> !tracks(self.entries@[j]),
            decreases self.entries.len() - i,
        {
            let entry = &self.entries[i];
            if entry.stream_id == stream_id && entry.component_id == component_id {
                proof {
                    search::lemma_first_found(self.entries@, tracks, i as int);
                }
                return Some(i);
            }
            i = i + 1;
        }
        proof {
            search::lemma_first_absent(self.entries@, tracks);
        }
        None
    }

    /// Build the Binding request for a consent check.
    ///
    /// Returns `None` if the component is not being tracked, or if its user
    /// name is too long for a request.
    pub fn build_consent_check(
        &mut self,
        stream_id: usize,
        component_id: usize,
        now: Instant,
    ) -> (r: Option<ConsentCheck>)
        requires
            old(self)@.config.scalable(),
            old(self)@.first_checkable(stream_id, component_id) is Some
                ==> old(self)@.config.schedulable(now),
        ensures
            old(self)@.builds(stream_id, component_id, r),
            exists|draw: u32|
                final(self)@ == old(self)@.checked(
                    stream_id,
                    component_id,
                    #[trigger] old(self)@.config.next_send(now, draw),
                ),
    {
        let interval = self.next_interval();
        proof {
            let draw = choose|draw: u32| interval.nanos == self@.config.interval_nanos(draw);
            assert(time::later(now, interval) == self@.config.next_send(now, draw));
        }
        self.build_consent_check_with_interval(stream_id, component_id, now, interval)
    }

    /// Build a consent check as
    /// [`build_consent_check`](ConsentFreshness::build_consent_check) does,
    /// with the next one due after the given interval.
    pub fn build_consent_check_with_interval(
        &mut self,
        stream_id: usize,
        component_id: usize,
        now: Instant,
        interval: Duration,
    ) -> (r: Option<ConsentCheck>)
        requires
            old(self)@.first_checkable(stream_id, component_id) is Some ==> time::reaches(
                now,
                interval,
            ),
        ensures
            old(self)@.builds(stream_id, component_id, r),
            final(self)@ == old(self)@.checked(
                stream_id,
                component_id,
                time::later(now, interval),
            ),
    {
        let Some(i) = self.find(stream_id, component_id) else {
            return None;
        };
        let entry = &self.entries[i];
        let request = generate_binding_request(
            entry.local_priority,
            false,
            entry.controlling,
            entry.tie_breaker,
            entry.local_creds.clone(),
            entry.remote_creds.clone(),
        );
        let Ok(msg) = request else {
            return None;
        };
        let check = ConsentCheck { local: entry.local.clone(), msg: finish(msg), to: entry.to };
        self.entries[i].next_send = now + interval;
        Some(check)
    }

    /// Called when an authenticated consent response has been received for
    /// `component_id`.
    pub fn on_response(&mut self, component_id: usize, now: Instant)
        requires
            old(self)@.config.scalable(),
            old(self)@.first_component(component_id) is Some ==> old(self)@.config.schedulable(now),
        ensures
            exists|draw: u32|
                final(self)@ == old(self)@.refreshed(
                    component_id,
                    now,
                    #[trigger] old(self)@.config.next_send(now, draw),
                ),
    {
        let interval = self.next_interval();
        proof {
            let draw = choose|draw: u32| interval.nanos == self@.config.interval_nanos(draw);
            assert(time::later(now, interval) == self@.config.next_send(now, draw));
        }
        self.on_response_with_interval(component_id, now, interval);
    }

    /// Take note of a response as [`on_response`](ConsentFreshness::on_response)
    /// does, with the next check due after the given interval.
    pub fn on_response_with_interval(
        &mut self,
        component_id: usize,
        now: Instant,
        interval: Duration,
    )
        requires
            old(self)@.first_component(component_id) is Some ==> time::reaches(now, interval),
        ensures
            final(self)@ == old(self)@.refreshed(component_id, now, time::later(now, interval)),
    {
        let ghost matching = |e: Entry| e.component_id == component_id;
        let mut i: usize = 0;
        while i < self.entries.len()
            invariant
                *self == *old(self),
                i <= self.entries.len(),
                matching == (|e: Entry| e.component_id == component_id),
                self@.first_component(component_id) is Some ==> time::reaches(now, interval),
                forall|j: int|
                    #![trigger self.entries@[j]]
                    0 <= j < i ==> !matching(self.entries@[j]),
            decreases self.entries.len() - i,
        {
            if self.entries[i].component_id == component_id {
                proof {
                    search::lemma_first_found(self.entries@, matching, i as int);
                }
                self.entries[i].last_consent_received = now;
                self.entries[i].next_send = now + interval;
                return;
            }
            i = i + 1;
        }
        proof {
            search::lemma_first_absent(self.entries@, matching);
        }
    }

    /// Called when a 403 Forbidden has been received for a consent check.
    ///
    /// This marks the entry, so that a later poll reports it as revoked.
    pub fn on_revoked(&mut self, stream_id: usize, component_id: usize)
        ensures
            final(self)@ == old(self)@.revoked(stream_id, component_id),
    {
        // One process serves all the streams of an agent, so the component id
        // alone does not tell the entries apart.
        if let Some(i) = self.find(stream_id, component_id) {
            self.entries[i].revoked = true;
        }
    }

    /// Poll the process.
    pub fn poll(&mut self, now: Instant) -> (r: ConsentFreshnessPoll)
        requires
            old(self)@.pollable(now),
        ensures
            old(self)@.answers(now, r),
            final(self)@ == old(self)@.polled(),
    {
        let ghost revoked = |e: Entry| e.revoked;
        let mut i: usize = 0;
        while i < self.entries.len()
            invariant
                *self == *old(self),
                i <= self.entries.len(),
                revoked == (|e: Entry| e.revoked),
                forall|j: int| #![trigger self.entries@[j]] 0 <= j < i ==> !self.entries@[j].revoked,
            decreases self.entries.len() - i,
        {
            if self.entries[i].revoked {
                proof {
                    search::lemma_first_found(self.entries@, revoked, i as int);
                }
                let entry = self.entries.swap_remove(i);
                return ConsentFreshnessPoll::ConsentRevoked {
                    stream_id: entry.stream_id,
                    component_id: entry.component_id,
                };
            }
            i = i + 1;
        }
        proof {
            search::lemma_first_absent(self.entries@, revoked);
        }

        let config = self.config;
        let ghost due = |e: Entry| e.due(self@.config, now);
        proof {
            search::lemma_first(self.entries@, due);
        }
        let mut lowest_wait: Option<Instant> = None;
        let mut i: usize = 0;
        while i < self.entries.len()
            invariant
                *self == *old(self),
                config == self.config,
                i <= self.entries.len(),
                due == (|e: Entry| e.due(self@.config, now)),
                self@.pollable(now),
                self@.first_revoked() is None,
                match self@.first_due(now) {
                    Some(k) => search::is_first(self.entries@, due, k),
                    None => forall|j: int|
                        #![trigger self.entries@[j]]
                        0 <= j < self.entries@.len() ==> !due(self.entries@[j]),
                },
                forall|j: int| #![trigger self.entries@[j]] 0 <= j < i ==> !due(self.entries@[j]),
                match lowest_wait {
                    Some(wait) => {
                        &&& exists|j: int|
                            0 <= j < i && #[trigger] self.entries@[j].wake(config) == wait.nanos
                        &&& forall|j: int|
                            0 <= j < i ==> wait.nanos <= #[trigger] self.entries@[j].wake(config)
                    },
                    None => i == 0,
                },
            decreases self.entries.len() - i,
        {
            let entry = &self.entries[i];
            assert(time::reaches(self@.entries[i as int].last_consent_received, config.timeout));
            let deadline = entry.last_consent_received + config.timeout;
            // Check if the overall consent timeout has elapsed.
            if now.nanos >= deadline.nanos {
                proof {
                    search::lemma_first_found(self.entries@, due, i as int);
                }
                return ConsentFreshnessPoll::ConsentExpired {
                    stream_id: entry.stream_id,
                    component_id: entry.component_id,
                };
            }
            // If the interval has elapsed, a new check is to be sent.  Each
            // request is sent once, without waiting for the answer to the one
            // before.
            if now.nanos >= entry.next_send.nanos {
                proof {
                    search::lemma_first_found(self.entries@, due, i as int);
                }
                return ConsentFreshnessPoll::SendCheck {
                    stream_id: entry.stream_id,
                    component_id: entry.component_id,
                };
            }
            // Compute the earliest relevant deadline.
            match lowest_wait {
                Some(prev) if prev.nanos <= deadline.nanos => {},
                _ => {
                    lowest_wait = Some(deadline);
                },
            }
            match lowest_wait {
                Some(prev) if prev.nanos <= entry.next_send.nanos => {},
                _ => {
                    lowest_wait = Some(entry.next_send);
                },
            }
            assert(self.entries@[i as int].wake(config) >= lowest_wait->0.nanos);
            i = i + 1;
        }
        proof {
            search::lemma_first_absent(self.entries@, due);
        }
        let idle = now + Duration::from_secs(IDLE_WAIT);
        ConsentFreshnessPoll::WaitUntil(lowest_wait.unwrap_or(idle))
    }

    /// The configuration.
    pub fn config(&self) -> (r: &Config)
        ensures
            *r == self@.config,
    {
        &self.config
    }

    /// Replace the configuration.
    pub fn set_config(&mut self, config: Config)
        ensures
            final(self)@ == (ConsentView { config, ..old(self)@ }),
    {
        self.config = config;
    }

    /// The number of components that are tracked.
    pub fn len(&self) -> (r: usize)
        ensures
            r == self@.entries.len(),
    {
        self.entries.len()
    }
}

} // verus!
