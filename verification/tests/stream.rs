//! Streams and their agent.
use rice_stream::agent::{Agent, AgentError, AgentEvent};
use rice_stream::candidate::{Candidate, CandidateType};
use rice_stream::checklist::{HandleRecvReply, PendingRecv, RecvIgnorable};
use rice_stream::component;
use rice_stream::component::{CandidatePair, ComponentConnectionState, GatherProgress};
use rice_stream::consent::Config;
use rice_stream::gathering::{
    GatherEvent, GatherPoll, GatherSocket, Gatherer, RequestRto, Timed,
};
use rice_stream::net::{AllocatedSocket, SocketAddr, StunError, Transmit, TransportType};
use rice_stream::secret::ice_string;
use rice_stream::stream::{Credentials, GatheredCandidate, IncomingStep, Stream, StreamMut};
use rice_stream::stream_state::StreamState;
use rice_stream::time::{Duration, Instant};

fn host_candidate(component_id: usize, addr: SocketAddr) -> Candidate {
    Candidate::builder(
        component_id,
        CandidateType::Host,
        TransportType::Udp,
        "foundation",
        addr,
    )
    .priority(1234)
    .build()
}

fn rto(initial: u64) -> RequestRto {
    RequestRto {
        initial: Duration::from_millis(initial),
        max: Duration::from_secs(8),
        retransmits: 7,
        final_retransmit_timeout: Duration::from_secs(8),
    }
}

fn secs(n: i64) -> Instant {
    Instant::from_nanos(n * 1_000_000_000)
}

fn datagram(byte: u8) -> Transmit {
    Transmit {
        data: vec![byte],
        transport: TransportType::Udp,
        from: SocketAddr::v4(10, 0, 0, 2, 2000),
        to: SocketAddr::v4(10, 0, 0, 1, 1000),
    }
}

/// Let a component of a stream gather.
fn gather(agent: &mut Agent, stream_id: usize, component_id: usize) {
    let state = agent.mut_stream_state(stream_id).unwrap();
    let component = state.mut_component_state(component_id).unwrap();
    component.gather_state = GatherProgress::InProgress;
    component.gatherer = Some(Gatherer::new(rto(500)));
}

fn gatherer(state: &mut StreamState, component_id: usize) -> &mut Gatherer {
    state
        .mut_component_state(component_id)
        .unwrap()
        .gatherer
        .as_mut()
        .unwrap()
}

/// A stream with two components, both of which gather.
fn gathering_stream() -> StreamState {
    let mut state = StreamState::new(0, 0);
    for _ in 0..2 {
        let id = state.add_component().unwrap();
        let component = state.mut_component_state(id).unwrap();
        component.gather_state = GatherProgress::InProgress;
        component.gatherer = Some(Gatherer::new(rto(500)));
    }
    state
}

#[test]
fn getters_setters() {
    let lcreds = Credentials::new("luser".into(), "lpass".into());
    let rcreds = Credentials::new("ruser".into(), "rpass".into());

    let mut agent = Agent::default();
    let stream_id = agent.add_stream();
    let mut stream = agent.mut_stream(stream_id).unwrap();
    assert!(stream.deref().component(0).is_none());
    let comp_id = stream.add_component().unwrap();
    assert_eq!(comp_id, stream.deref().component(comp_id).unwrap().id());

    stream.set_local_credentials(lcreds.clone());
    assert_eq!(stream.deref().local_credentials().unwrap(), lcreds);
    stream.set_remote_credentials(rcreds.clone());
    assert_eq!(stream.deref().remote_credentials().unwrap(), rcreds);
}

#[test]
fn restart_preserves_local_candidates_and_clears_remote_credentials() {
    let now = Instant::zero();
    let mut agent = Agent::default();
    let stream_id = agent.add_stream();
    let component_id = agent.mut_stream(stream_id).unwrap().add_component().unwrap();
    let old_local = Credentials::new("luser".into(), "long-local-password-value".into());
    let old_remote = Credentials::new("ruser".into(), "long-remote-password-value".into());
    let local_candidate = host_candidate(component_id, SocketAddr::v4(10, 0, 0, 1, 1000));
    {
        let mut stream = agent.mut_stream(stream_id).unwrap();
        stream.set_local_credentials(old_local);
        stream.set_remote_credentials(old_remote);
        assert!(stream.add_local_candidate(local_candidate.clone()));
        stream.add_remote_candidate(host_candidate(
            component_id,
            SocketAddr::v4(10, 0, 0, 2, 2000),
        ));
        stream.end_of_local_candidates();
        stream.end_of_remote_candidates();
    }

    let before = agent
        .stream(stream_id)
        .unwrap()
        .local_candidates()
        .iter()
        .cloned()
        .collect::<Vec<_>>();
    let new_local = Credentials::new("next".into(), "replacement-password-value".into());
    agent
        .mut_stream(stream_id)
        .unwrap()
        .restart(new_local.clone(), now);

    let stream = agent.stream(stream_id).unwrap();
    let after = stream
        .local_candidates()
        .iter()
        .cloned()
        .collect::<Vec<_>>();
    assert_eq!(after, before);
    assert_eq!(stream.local_credentials(), Some(new_local.clone()));
    assert!(stream.remote_credentials().is_none());

    let checklist_id = agent.stream_state(stream_id).unwrap().checklist_id;
    let checklist = agent.checklistset.list(checklist_id).unwrap();
    assert_eq!(checklist.local_credentials(), &new_local);
    assert!(checklist.remote_credentials().is_none());

    match agent.poll_event() {
        Some(AgentEvent::ComponentStateChange(change)) => {
            assert_eq!(change.component_id, component_id);
            assert_eq!(change.state, ComponentConnectionState::Connecting);
        }
        other => panic!("expected restart to reset component state, got {other:?}"),
    }
    assert!(
        !matches!(agent.poll_event(), Some(AgentEvent::RemoveSocket(_))),
        "restart must preserve sockets backing local candidates"
    );
}

#[test]
fn remove_component_removes_resources_and_reuses_slot() {
    let mut agent = Agent::default();
    let stream_id = agent.add_stream();
    let (component1, component2) = {
        let mut stream = agent.mut_stream(stream_id).unwrap();
        let component1 = stream.add_component().unwrap();
        let component2 = stream.add_component().unwrap();
        assert!(stream.add_local_candidate(host_candidate(
            component1,
            SocketAddr::v4(10, 0, 0, 1, 1000)
        )));
        assert!(stream.add_local_candidate(host_candidate(
            component2,
            SocketAddr::v4(10, 0, 0, 1, 1002)
        )));
        (component1, component2)
    };

    agent
        .mut_stream(stream_id)
        .unwrap()
        .remove_component(component1);
    let stream = agent.stream(stream_id).unwrap();
    assert!(stream.component(component1).is_none());
    assert!(stream.component(component2).is_some());
    assert_eq!(
        stream
            .local_candidates()
            .iter()
            .map(|candidate| candidate.component_id)
            .collect::<Vec<_>>(),
        vec![component2]
    );

    let Some(AgentEvent::RemoveSocket(removed)) = agent.poll_event() else {
        panic!("expected removed component socket");
    };
    assert_eq!(removed.stream_id, stream_id);
    assert_eq!(removed.component_id, component1);
    assert_eq!(removed.transport, TransportType::Udp);
    assert_eq!(removed.from, SocketAddr::v4(10, 0, 0, 1, 1000));
    assert!(agent.poll_event().is_none());

    let reused = agent.mut_stream(stream_id).unwrap().add_component().unwrap();
    assert_eq!(reused, component1);
}

#[test]
fn streams_are_numbered_from_zero() {
    let mut agent = Agent::default();
    assert!(agent.stream(0).is_none());
    assert!(agent.mut_stream(0).is_none());
    assert_eq!(agent.add_stream(), 0);
    assert_eq!(agent.add_stream(), 1);
    assert_eq!(agent.checklistset.lists.len(), 2);
    assert_eq!(agent.stream(1).unwrap().id(), 1);
    assert_eq!(agent.stream(1).unwrap().agent().streams.len(), 2);
    assert_eq!(agent.stream_state(1).unwrap().id(), 1);
    assert!(agent.stream(2).is_none());
    assert_ne!(
        agent.stream_state(0).unwrap().checklist_id,
        agent.stream_state(1).unwrap().checklist_id
    );
}

#[test]
fn mut_agent_gives_the_agent_back() {
    let mut agent = Agent::default();
    let stream_id = agent.add_stream();
    let mut stream = agent.mut_stream(stream_id).unwrap();
    assert_eq!(stream.mut_agent().add_stream(), 1);
    assert_eq!(agent.streams.len(), 2);
}

#[test]
fn missing_stream_is_refused() {
    let mut agent = Agent::default();
    {
        let mut stream = StreamMut {
            agent: &mut agent,
            id: 3,
        };
        assert_eq!(stream.add_component(), Err(AgentError::ResourceNotFound));
        assert!(stream.mut_component(1).is_none());
        stream.remove_component(1);
        stream.restart(Credentials::new("a".into(), "b".into()), secs(0));
        stream.add_remote_candidate(host_candidate(1, SocketAddr::v4(10, 0, 0, 2, 2000)));
    }
    let handle = Stream {
        agent: &agent,
        id: 3,
    };
    assert!(handle.component(1).is_none());
    assert!(handle.local_credentials().is_none());
    assert!(handle.remote_credentials().is_none());
    assert!(agent.poll_event().is_none());
    assert_eq!(
        agent.restart_stream_with_credentials(
            3,
            Credentials::new("a".into(), "b".into()),
            secs(0)
        ),
        Err(AgentError::ResourceNotFound)
    );
}

#[test]
fn components_are_numbered_from_one() {
    let mut agent = Agent::default();
    let stream_id = agent.add_stream();
    let mut stream = agent.mut_stream(stream_id).unwrap();
    assert_eq!(stream.add_component(), Ok(component::RTP));
    assert_eq!(stream.add_component(), Ok(component::RTCP));
    assert_eq!(stream.mut_component(component::RTCP).unwrap().id(), 2);
    assert!(stream.mut_component(0).is_none());
    assert!(stream.mut_component(3).is_none());
    assert_eq!(stream.deref().component_ids_iter(), vec![1, 2]);
    assert_eq!(agent.checklistset.lists[0].component_ids, vec![1, 2]);
}

#[test]
fn removing_keeps_the_other_ids() {
    let mut agent = Agent::default();
    let stream_id = agent.add_stream();
    let mut stream = agent.mut_stream(stream_id).unwrap();
    for _ in 0..4 {
        stream.add_component().unwrap();
    }
    stream.remove_component(3);
    stream.remove_component(2);
    stream.remove_component(0);
    stream.remove_component(9);
    assert_eq!(stream.deref().component_ids_iter(), vec![1, 4]);
    assert_eq!(stream.deref().component(4).unwrap().id(), 4);
    // The lowest free place comes first.
    assert_eq!(stream.add_component(), Ok(2));
    assert_eq!(stream.add_component(), Ok(3));
    assert_eq!(stream.add_component(), Ok(5));
    assert_eq!(stream.deref().component_ids_iter(), vec![1, 2, 3, 4, 5]);
}

#[test]
fn removal_undoes_addition() {
    let mut state = StreamState::new(0, 0);
    state.add_component().unwrap();
    let id = state.add_component().unwrap();
    assert!(state.remove_component(id));
    assert!(!state.remove_component(0));
    assert!(!state.remove_component(3));
    assert_eq!(state.component_ids_iter(), vec![1]);
    assert!(state.component_state(id).is_none());
    assert_eq!(state.add_component(), Ok(id));
}

#[test]
fn removal_takes_everything_of_the_component() {
    let mut agent = Agent::new(Some(Config::default()));
    let stream_id = agent.add_stream();
    let other_id = agent.add_stream();
    {
        let mut other = agent.mut_stream(other_id).unwrap();
        other.add_component().unwrap();
        other.add_local_candidate(host_candidate(1, SocketAddr::v4(10, 0, 0, 1, 5000)));
    }
    {
        let mut stream = agent.mut_stream(stream_id).unwrap();
        stream.add_component().unwrap();
        stream.add_component().unwrap();
        stream.add_local_candidate(host_candidate(1, SocketAddr::v4(10, 0, 0, 1, 1000)));
        stream.add_local_candidate(host_candidate(2, SocketAddr::v4(10, 0, 0, 1, 1002)));
        let mut reflexive = host_candidate(1, SocketAddr::v4(192, 0, 2, 1, 1000));
        reflexive.candidate_type = CandidateType::ServerReflexive;
        stream.add_local_candidate(reflexive);
        stream.add_local_candidate(host_candidate(1, SocketAddr::v4(10, 0, 0, 1, 1004)));
        stream.add_remote_candidate(host_candidate(1, SocketAddr::v4(10, 0, 0, 2, 2000)));
        stream.add_remote_candidate(host_candidate(2, SocketAddr::v4(10, 0, 0, 2, 2002)));
    }
    let consent = agent.consent_freshness.as_mut().unwrap();
    for (stream_id, component_id) in [(0, 1), (0, 2), (1, 1)] {
        consent.start(
            stream_id,
            component_id,
            host_candidate(component_id, SocketAddr::v4(10, 0, 0, 1, 1000)),
            SocketAddr::v4(10, 0, 0, 2, 2000),
            Credentials::new("l".into(), "lp".into()),
            Credentials::new("r".into(), "rp".into()),
            true,
            42,
            secs(0),
        );
    }
    agent.checklistset.lists[0].pending_recv.push(PendingRecv {
        component_id: 1,
        data: vec![1],
    });

    agent.mut_stream(stream_id).unwrap().remove_component(1);

    let stream = agent.stream(stream_id).unwrap();
    assert_eq!(
        stream.local_candidates(),
        &[host_candidate(2, SocketAddr::v4(10, 0, 0, 1, 1002))][..]
    );
    assert_eq!(
        stream.remote_candidates(),
        &[host_candidate(2, SocketAddr::v4(10, 0, 0, 2, 2002))][..]
    );
    assert_eq!(agent.checklistset.lists[0].component_ids, vec![2]);
    assert_eq!(agent.checklistset.lists[0].pending_recv.len(), 0);
    assert_eq!(agent.stream(other_id).unwrap().local_candidates().len(), 1);
    let consent = agent.consent_freshness.as_mut().unwrap();
    assert_eq!(consent.len(), 2);
    assert!(consent.build_consent_check(0, 1, secs(1)).is_none());

    // The sockets of the two host candidates are given back, in order.
    let mut ports = Vec::new();
    while let Some(event) = agent.poll_event() {
        let AgentEvent::RemoveSocket(socket) = event else {
            panic!("unexpected {event:?}");
        };
        assert_eq!((socket.stream_id, socket.component_id), (0, 1));
        ports.push(socket.from.port);
    }
    assert_eq!(ports, vec![1000, 1004]);
}

#[test]
fn restart_clears_consent_of_the_stream() {
    let mut agent = Agent::new(Some(Config::default()));
    agent.add_stream();
    agent.add_stream();
    for stream_id in 0..2 {
        let mut stream = agent.mut_stream(stream_id).unwrap();
        stream.add_component().unwrap();
        stream.add_component().unwrap();
    }
    let consent = agent.consent_freshness.as_mut().unwrap();
    for (stream_id, component_id) in [(0, 1), (1, 1), (0, 2), (1, 2)] {
        consent.start(
            stream_id,
            component_id,
            host_candidate(component_id, SocketAddr::v4(10, 0, 0, 1, 1000)),
            SocketAddr::v4(10, 0, 0, 2, 2000),
            Credentials::new("l".into(), "lp".into()),
            Credentials::new("r".into(), "rp".into()),
            true,
            42,
            secs(0),
        );
    }
    agent
        .mut_stream(0)
        .unwrap()
        .restart(Credentials::new("a".into(), "b".into()), secs(3));
    let left: Vec<(usize, usize)> = agent
        .consent_freshness
        .as_ref()
        .unwrap()
        .entries
        .iter()
        .map(|entry| (entry.stream_id, entry.component_id))
        .collect();
    assert_eq!(left, vec![(1, 1), (1, 2)]);
    assert_eq!(agent.checklistset.lists[0].restarted_at, Some(secs(3)));
    assert_eq!(agent.checklistset.lists[1].restarted_at, None);
}

#[test]
fn restart_rearms_both_sides() {
    let mut agent = Agent::default();
    let stream_id = agent.add_stream();
    let mut stream = agent.mut_stream(stream_id).unwrap();
    let component_id = stream.add_component().unwrap();
    let remote = host_candidate(component_id, SocketAddr::v4(10, 0, 0, 2, 2000));
    stream.add_remote_candidate(remote.clone());
    stream.end_of_local_candidates();
    stream.end_of_remote_candidates();
    let state = agent.mut_stream_state(stream_id).unwrap();
    let component = state.mut_component_state(component_id).unwrap();
    component.state = ComponentConnectionState::Connected;
    component.selected_pair = Some(CandidatePair {
        local: host_candidate(component_id, SocketAddr::v4(10, 0, 0, 1, 1000)),
        remote: remote.clone(),
    });
    assert!(agent.checklistset.lists[0].local_end_of_candidates);
    assert!(agent.checklistset.lists[0].remote_end_of_candidates);

    let credentials = agent
        .mut_stream(stream_id)
        .unwrap()
        .restart_with_random_credentials(secs(1));
    assert_eq!(credentials.ufrag.len(), 4);
    assert_eq!(credentials.passwd.len(), 22);
    assert_eq!(
        agent.stream(stream_id).unwrap().local_credentials(),
        Some(credentials.clone())
    );
    assert_eq!(
        agent.checklistset.lists[0].local_credentials(),
        &credentials
    );
    assert!(!agent.checklistset.lists[0].local_end_of_candidates);
    assert!(!agent.checklistset.lists[0].remote_end_of_candidates);
    assert_eq!(agent.stream(stream_id).unwrap().remote_candidates().len(), 0);
    let component = agent
        .stream_state(stream_id)
        .unwrap()
        .component_state(component_id)
        .unwrap();
    assert_eq!(component.state, ComponentConnectionState::Connecting);
    assert!(component.selected_pair.is_none());
    assert!(matches!(
        agent.poll_event(),
        Some(AgentEvent::ComponentStateChange(_))
    ));

    // A second restart finds every component connecting.
    agent
        .mut_stream(stream_id)
        .unwrap()
        .restart_with_random_credentials(secs(2));
    assert!(agent.poll_event().is_none());
}

#[test]
fn restart_reports_components_in_order() {
    let mut agent = Agent::default();
    let stream_id = agent.add_stream();
    {
        let mut stream = agent.mut_stream(stream_id).unwrap();
        for _ in 0..4 {
            stream.add_component().unwrap();
        }
        stream.remove_component(2);
    }
    let state = agent.mut_stream_state(stream_id).unwrap();
    state.mut_component_state(3).unwrap().state = ComponentConnectionState::Connecting;
    agent
        .mut_stream(stream_id)
        .unwrap()
        .restart(Credentials::new("a".into(), "b".into()), secs(0));
    let mut ids = Vec::new();
    while let Some(AgentEvent::ComponentStateChange(change)) = agent.poll_event() {
        assert_eq!(change.stream_id, stream_id);
        ids.push(change.component_id);
    }
    assert_eq!(ids, vec![1, 4]);
}

#[test]
fn random_credentials_differ_and_use_ice_characters() {
    let mut agent = Agent::default();
    let stream_id = agent.add_stream();
    let mut stream = agent.mut_stream(stream_id).unwrap();
    let first = stream.restart_with_random_credentials(secs(0));
    let second = stream.restart_with_random_credentials(secs(0));
    assert_ne!(first.passwd, second.passwd);
    for c in first.ufrag.chars().chain(first.passwd.chars()) {
        assert!(c.is_ascii_alphanumeric() || c == '+' || c == '/');
    }
}

#[test]
fn draws_stand_for_characters() {
    assert_eq!(ice_string(&vec![0, 25, 26, 51, 52, 61, 62, 63]), "AZaz09+/");
    assert_eq!(ice_string(&vec![64, u32::MAX]), "A/");
    assert_eq!(ice_string(&vec![]), "");
}

#[test]
fn remote_candidates_are_read_back() {
    let mut agent = Agent::default();
    let stream_id = agent.add_stream();
    let mut stream = agent.mut_stream(stream_id).unwrap();
    stream.add_component().unwrap();
    let candidate = Candidate::builder(
        0,
        CandidateType::Host,
        TransportType::Udp,
        "0",
        SocketAddr::v4(127, 0, 0, 1, 9999),
    )
    .build();
    stream.add_remote_candidate(candidate.clone());
    let handle = stream.deref();
    let remote_cands = handle.remote_candidates();
    assert_eq!(remote_cands.len(), 1);
    assert_eq!(remote_cands[0], candidate);
}

#[test]
fn redundant_local_candidate_is_refused() {
    let mut agent = Agent::default();
    let stream_id = agent.add_stream();
    let mut stream = agent.mut_stream(stream_id).unwrap();
    let addr = SocketAddr::v4(10, 0, 0, 1, 1000);
    assert!(stream.add_local_gathered_candidate(GatheredCandidate {
        candidate: host_candidate(1, addr),
    }));
    assert!(!stream.add_local_candidate(host_candidate(1, addr)));
    assert!(!stream.add_local_gathered_candidate(GatheredCandidate {
        candidate: host_candidate(1, addr),
    }));
    assert!(stream.add_local_candidate(host_candidate(2, addr)));
    assert_eq!(stream.deref().local_candidates().len(), 2);
}

#[test]
fn received_data_is_polled_in_order() {
    let mut agent = Agent::default();
    let stream_id = agent.add_stream();
    for byte in 0..2u8 {
        agent.checklistset.lists[0].pending_recv.push(PendingRecv {
            component_id: 1,
            data: vec![byte],
        });
    }
    let mut stream = agent.mut_stream(stream_id).unwrap();
    assert_eq!(stream.poll_recv().unwrap().data, vec![0]);
    assert_eq!(stream.poll_recv().unwrap().data, vec![1]);
    assert!(stream.poll_recv().is_none());
}

#[test]
fn ignorable_errors_are_queued() {
    let mut agent = Agent::default();
    let stream_id = agent.add_stream();
    let mut stream = agent.mut_stream(stream_id).unwrap();
    stream.send_ignorable_error(RecvIgnorable {
        transmit: datagram(1),
    });
    stream.send_ignorable_error(RecvIgnorable {
        transmit: datagram(2),
    });
    assert_eq!(agent.checklistset.ignorable.len(), 2);
    assert_eq!(agent.checklistset.ignorable[1].transmit, datagram(2));
}

#[test]
fn incoming_data_takes_the_right_way() {
    let mut agent = Agent::default();
    agent.add_stream();
    let stream_id = agent.add_stream();
    let checklist_id = agent.stream_state(stream_id).unwrap().checklist_id;
    let mut stream = agent.mut_stream(stream_id).unwrap();
    stream.add_component().unwrap();
    let unhandled = IncomingStep::Reply(HandleRecvReply::default());
    let checklist = |byte: u8| IncomingStep::Checklist {
        checklist_id,
        component_id: 1,
        transmit: datagram(byte),
        now: secs(1),
    };

    // Unknown components.
    assert_eq!(stream.handle_incoming_data(0, datagram(1), secs(1)), unhandled);
    assert_eq!(stream.handle_incoming_data(2, datagram(1), secs(1)), unhandled);
    assert_eq!(
        stream.handle_gatherer_reply(2, datagram(1), secs(1), true),
        unhandled
    );
    // Nothing is being gathered.
    assert_eq!(
        stream.handle_incoming_data(1, datagram(1), secs(1)),
        checklist(1)
    );
    assert_eq!(
        stream.handle_gatherer_reply(1, datagram(1), secs(1), true),
        checklist(1)
    );

    gather(&mut agent, stream_id, 1);
    let stream = agent.mut_stream(stream_id).unwrap();
    assert_eq!(
        stream.handle_incoming_data(1, datagram(2), secs(1)),
        IncomingStep::Gatherer {
            component_id: 1,
            transmit: datagram(2),
            now: secs(1),
        }
    );
    assert_eq!(
        stream.handle_gatherer_reply(1, datagram(2), secs(1), true),
        IncomingStep::Reply(HandleRecvReply {
            handled: true,
            have_more_data: false,
            data: None,
            ignorable: None,
        })
    );
    assert_eq!(
        stream.handle_gatherer_reply(1, datagram(2), secs(1), false),
        checklist(2)
    );
}

#[test]
fn allocated_socket_is_forwarded() {
    let mut agent = Agent::default();
    let stream_id = agent.add_stream();
    agent.mut_stream(stream_id).unwrap().add_component().unwrap();
    let from = SocketAddr::v4(192, 168, 1, 1, 1000);
    let to = SocketAddr::v4(192, 168, 1, 2, 2000);
    let bound = SocketAddr::v4(192, 168, 1, 1, 15000);
    let socket = |local_addr| AllocatedSocket {
        component_id: 1,
        transport: TransportType::Tcp,
        from,
        to,
        local_addr,
    };

    // No such component.
    agent.mut_stream(stream_id).unwrap().allocated_socket(
        2,
        TransportType::Tcp,
        from,
        to,
        Ok(bound),
        secs(0),
    );
    assert_eq!(agent.checklistset.lists[0].allocated.len(), 0);

    // While gathering both learn of it.
    gather(&mut agent, stream_id, 1);
    agent.mut_stream(stream_id).unwrap().allocated_socket(
        1,
        TransportType::Tcp,
        from,
        to,
        Err(StunError::Aborted),
        secs(1),
    );
    let state = agent.mut_stream_state(stream_id).unwrap();
    assert_eq!(
        gatherer(state, 1).allocated,
        vec![socket(Err(StunError::Aborted))]
    );

    // Afterwards the check list alone does.
    state.mut_component_state(1).unwrap().gather_state = GatherProgress::Completed;
    agent.mut_stream(stream_id).unwrap().allocated_socket(
        1,
        TransportType::Tcp,
        from,
        to,
        Ok(bound),
        secs(2),
    );
    assert_eq!(
        agent.checklistset.lists[0].allocated,
        vec![
            Timed {
                at: secs(1),
                item: socket(Err(StunError::Aborted)),
            },
            Timed {
                at: secs(2),
                item: socket(Ok(bound)),
            },
        ]
    );
    let state = agent.mut_stream_state(stream_id).unwrap();
    assert_eq!(gatherer(state, 1).allocated.len(), 1);
}

#[test]
fn gathering_is_polled_component_by_component() {
    let mut state = gathering_stream();
    let needed = GatherSocket {
        component_id: 2,
        transport: TransportType::Tcp,
        local_addr: SocketAddr::v4(192, 168, 1, 1, 1000),
        remote_addr: SocketAddr::v4(192, 168, 1, 2, 2000),
    };
    gatherer(&mut state, 2).events.push(Timed {
        at: secs(1),
        item: GatherEvent::AllocateSocket(needed),
    });
    gatherer(&mut state, 1).events.push(Timed {
        at: secs(3),
        item: GatherEvent::NewCandidate(GatheredCandidate {
            candidate: host_candidate(1, SocketAddr::v4(10, 0, 0, 1, 1000)),
        }),
    });
    gatherer(&mut state, 1).events.push(Timed {
        at: secs(3),
        item: GatherEvent::Complete(1),
    });

    assert_eq!(state.poll_gather(secs(0)), GatherPoll::WaitUntil(secs(1)));
    assert_eq!(state.poll_gather(secs(1)), GatherPoll::AllocateSocket(needed));
    assert_eq!(state.poll_gather(secs(1)), GatherPoll::WaitUntil(secs(3)));
    assert_eq!(
        state.poll_gather(secs(3)),
        GatherPoll::NewCandidate(GatheredCandidate {
            candidate: host_candidate(1, SocketAddr::v4(10, 0, 0, 1, 1000)),
        })
    );
    assert_eq!(state.poll_gather(secs(3)), GatherPoll::Complete(1));
    assert_eq!(
        state.component_state(1).unwrap().gather_state,
        GatherProgress::Completed
    );
    assert_eq!(
        state.component_state(2).unwrap().gather_state,
        GatherProgress::InProgress
    );
    assert_eq!(state.poll_gather(secs(3)), GatherPoll::Finished);
}

#[test]
fn completed_gathering_is_silent() {
    let mut state = gathering_stream();
    gatherer(&mut state, 1).events.push(Timed {
        at: secs(0),
        item: GatherEvent::Complete(1),
    });
    gatherer(&mut state, 1).events.push(Timed {
        at: secs(0),
        item: GatherEvent::Complete(1),
    });
    gatherer(&mut state, 1).transmits.push(Timed {
        at: secs(0),
        item: datagram(1),
    });
    assert_eq!(state.poll_gather(secs(0)), GatherPoll::Complete(1));
    assert_eq!(state.poll_gather(secs(0)), GatherPoll::Finished);
    assert_eq!(state.poll_gather_transmit(secs(0)), None);
}

#[test]
fn gathered_data_is_sent_when_due() {
    let mut state = gathering_stream();
    gatherer(&mut state, 2).transmits.push(Timed {
        at: secs(1),
        item: datagram(2),
    });
    gatherer(&mut state, 1).transmits.push(Timed {
        at: secs(2),
        item: datagram(1),
    });
    assert_eq!(state.poll_gather_transmit(secs(0)), None);
    assert_eq!(state.poll_gather(secs(0)), GatherPoll::WaitUntil(secs(1)));
    assert_eq!(state.poll_gather_transmit(secs(1)), Some((2, datagram(2))));
    assert_eq!(state.poll_gather_transmit(secs(1)), None);
    assert_eq!(state.poll_gather(secs(1)), GatherPoll::WaitUntil(secs(2)));
    assert_eq!(state.poll_gather_transmit(secs(2)), Some((1, datagram(1))));
    assert_eq!(state.poll_gather(secs(2)), GatherPoll::Finished);
}

#[test]
fn retransmits_are_set_for_every_gatherer() {
    let mut state = gathering_stream();
    state.add_component().unwrap();
    state.mut_component_state(2).unwrap().gather_state = GatherProgress::Completed;
    state.set_request_retransmits(rto(100));
    assert_eq!(gatherer(&mut state, 1).rto, rto(100));
    assert_eq!(gatherer(&mut state, 2).rto, rto(100));
    assert!(state.component_state(3).unwrap().gatherer.is_none());
}

#[test]
fn credentials_of_a_stream_are_kept_apart() {
    let mut state = StreamState::new(4, 2);
    assert_eq!(state.id(), 4);
    assert!(state.local_credentials().is_none());
    let local = Credentials::new("l".into(), "lp".into());
    let remote = Credentials::new("r".into(), "rp".into());
    state.set_local_credentials(local.clone());
    state.set_remote_credentials(remote.clone());
    assert_eq!(state.local_credentials(), Some(local.clone()));
    assert_eq!(state.remote_credentials(), Some(remote));
    state.clear_remote_credentials();
    assert_eq!(state.local_credentials(), Some(local));
    assert!(state.remote_credentials().is_none());
}

#[test]
fn selected_pairs_can_be_cleared() {
    let mut state = StreamState::new(0, 0);
    for _ in 0..3 {
        let id = state.add_component().unwrap();
        state.mut_component_state(id).unwrap().selected_pair = Some(CandidatePair {
            local: host_candidate(id, SocketAddr::v4(10, 0, 0, 1, 1000)),
            remote: host_candidate(id, SocketAddr::v4(10, 0, 0, 2, 2000)),
        });
    }
    state.remove_component(2);
    state.clear_selected_pairs();
    for id in [1, 3] {
        assert!(state.component_state(id).unwrap().selected_pair.is_none());
    }
    assert!(state.component_state(2).is_none());
}

#[test]
fn addresses_are_numbers_in_network_order() {
    let addr = SocketAddr::v4(10, 1, 2, 3, 4);
    assert_eq!(addr.ip, rice_stream::net::IpAddr::V4(0x0a010203));
    assert_eq!(addr.port, 4);
}
