use rumpunch::peer::{accept_reply, reply_payload, ReplyWait, WaitStep};
use rumpunch::server::{source_key, supervise, SupervisorAction, TaskOutcome};
use rumpunch::state::ConnectionIds;
use rumpunch::{
    Ack, ConnectRequests, HandleError, Message, NetworkErrorKind, PairState, PayloadKind, PeerAddr,
    PeerState, ProbeReply, ProbeRequest, RateLimiter, RendezvousServer, SampleRequest, StartReply,
    StartRequest, State, StopRequest, ErrorKind,
};

fn s(x: &str) -> String {
    x.to_string()
}

#[test]
fn rendezvous_symmetry() {
    let mut m = ConnectRequests::new();
    assert!(!m.handle_start_request(&s("a"), &s("b")));
    assert_eq!(m.pair_state(&s("a"), &s("b")), PairState::OneSideRequested);
    assert!(m.handle_start_request(&s("b"), &s("a")));
    assert_eq!(m.pair_state(&s("b"), &s("a")), PairState::BothRequested);

    let mut m = ConnectRequests::new();
    assert!(!m.handle_start_request(&s("b"), &s("a")));
    assert!(m.handle_start_request(&s("a"), &s("b")));
    // The first requester is unblocked too.
    assert!(m.handle_start_request(&s("b"), &s("a")));
}

#[test]
fn rendezvous_idempotence() {
    let mut m = ConnectRequests::new();
    m.handle_start_request(&s("a"), &s("b"));
    m.handle_start_request(&s("b"), &s("a"));
    for _ in 0..3 {
        assert!(m.handle_start_request(&s("a"), &s("b")));
        assert!(m.handle_start_request(&s("b"), &s("a")));
        assert_eq!(m.pair_state(&s("a"), &s("b")), PairState::BothRequested);
    }
}

#[test]
fn stop_clears_state() {
    let mut m = ConnectRequests::new();
    m.handle_start_request(&s("a"), &s("b"));
    m.handle_start_request(&s("b"), &s("a"));
    m.handle_stop_request(&s("a"), &s("b"));
    assert_eq!(m.pair_state(&s("a"), &s("b")), PairState::Absent);
    assert!(!m.handle_start_request(&s("a"), &s("b")));
    assert_eq!(m.pair_state(&s("a"), &s("b")), PairState::OneSideRequested);
    // Stopping from the other side, and stopping twice, is fine.
    m.handle_stop_request(&s("b"), &s("a"));
    m.handle_stop_request(&s("b"), &s("a"));
    assert_eq!(m.pair_state(&s("a"), &s("b")), PairState::Absent);
}

#[test]
fn unrelated_pairs_are_independent() {
    let mut m = ConnectRequests::new();
    assert!(!m.handle_start_request(&s("a"), &s("b")));
    assert!(!m.handle_start_request(&s("a"), &s("c")));
    assert!(m.handle_start_request(&s("c"), &s("a")));
    assert_eq!(m.pair_state(&s("a"), &s("b")), PairState::OneSideRequested);
}

#[test]
fn entries_snapshot() {
    let mut m = ConnectRequests::new();
    assert!(m.entries().is_empty());
    m.handle_start_request(&s("a"), &s("b"));
    m.handle_start_request(&s("c"), &s("d"));
    m.handle_start_request(&s("d"), &s("c"));
    let mut e = m.entries();
    e.sort();
    assert_eq!(e, vec![(s("a"), s("b"), false), (s("c"), s("d"), true)]);
}

#[test]
fn claim_first_free_draw() {
    let mut ids = ConnectionIds::new();
    assert_eq!(ids.claim_first_free(&[5, 5, 6]), Some(5));
    assert_eq!(ids.claim_first_free(&[5, 5, 6, 7]), Some(6));
    assert_eq!(ids.claim_first_free(&[5, 6]), None);
    assert_eq!(ids.claim_first_free(&[]), None);
    assert!(ids.contains(5) && ids.contains(6) && !ids.contains(7));
}

#[test]
fn pair_keeps_one_connection_id() {
    let mut state = State::new();
    let srv = s("srv");
    let src = PeerAddr::V4([10, 0, 0, 2], 2000);
    let ask = |from: &str, to: &str, id: u32| Message::new(s(from), id, StartRequest { connect_to: s(to) });
    let first: StartReply = reply_payload(&state.handle_message(&srv, src, &ask("a", "b", 1)).unwrap()).unwrap();
    assert_eq!(first.connection_id, None);
    let b: StartReply = reply_payload(&state.handle_message(&srv, src, &ask("b", "a", 2)).unwrap()).unwrap();
    let a: StartReply = reply_payload(&state.handle_message(&srv, src, &ask("a", "b", 3)).unwrap()).unwrap();
    let b2: StartReply = reply_payload(&state.handle_message(&srv, src, &ask("b", "a", 4)).unwrap()).unwrap();
    let id = b.connection_id.expect("matched");
    assert_eq!(a.connection_id, Some(id));
    assert_eq!(b2.connection_id, Some(id));
    assert_eq!(state.pair_ids.get(&s("a"), &s("b")), Some(id));

    let stop = Message::new(s("b"), 5, StopRequest { connect_to: s("a") });
    state.handle_message(&srv, src, &stop).unwrap();
    assert_eq!(state.pair_ids.get(&s("a"), &s("b")), None);
    let again: StartReply = reply_payload(&state.handle_message(&srv, src, &ask("b", "a", 6)).unwrap()).unwrap();
    assert_eq!(again.connection_id, None);
}

#[test]
fn connection_ids_are_fresh() {
    let mut ids = ConnectionIds::new();
    let a = ids.new_connection_id().unwrap();
    let b = ids.new_connection_id().unwrap();
    assert_ne!(a, b);
    assert!(ids.contains(a) && ids.contains(b));
}

#[test]
fn token_bucket_scenario() {
    let mut limiter = RateLimiter::new(3, 1000);
    assert!(limiter.can_service(7, 0));
    assert!(limiter.can_service(7, 10));
    assert!(limiter.can_service(7, 999));
    assert!(!limiter.can_service(7, 999));
    // Another key has its own bucket.
    assert!(limiter.can_service(8, 999));
    assert!(limiter.can_service(7, 1000));
}

#[test]
fn rate_limiter_expiry() {
    let mut limiter = RateLimiter::new(3, 1000);
    limiter.can_service(1, 0);
    limiter.can_service(2, 2500);
    limiter.maintain(2999);
    assert!(limiter.contains(1) && limiter.contains(2));
    // At exactly the expiry interval the bucket stays; past it, it goes.
    limiter.maintain(3000);
    assert!(limiter.contains(1) && limiter.contains(2));
    limiter.maintain(3001);
    assert!(!limiter.contains(1));
    assert!(limiter.contains(2));
}

#[test]
fn token_bucket_methods() {
    let mut b = rumpunch::TokenBucket::new(1, 100, 300, 50);
    assert!(b.try_use_token(60));
    assert_eq!(b.tokens(), 0);
    b.try_reset(100);
    assert_eq!(b.tokens(), 0);
    assert!(!b.try_use_token(149));
    b.try_reset(150);
    assert_eq!(b.tokens(), 1);
    assert!(!b.is_expired(450));
    assert!(b.is_expired(451));
    // A clock that went back counts as no time passed.
    assert!(!b.is_expired(0));
}

#[test]
fn source_key_exact() {
    let a = PeerAddr::V4([1, 2, 3, 4], 5);
    // ((((1*31+2)*31+3)*31+4)*31+5)
    assert_eq!(source_key(&a), ((((1 * 31 + 2) * 31 + 3) * 31 + 4) * 31 + 5) as u32);
    assert_ne!(source_key(&a), source_key(&PeerAddr::V4([1, 2, 3, 4], 6)));
}

fn probe_datagram(peer: &mut PeerState) -> (Vec<u8>, u32) {
    let m = peer.new_message(ProbeRequest {});
    (m.to_bytes(), m.msg_id())
}

#[test]
fn probe_reply_reports_observed_source() {
    let server = RendezvousServer::new(vec![4000, 4001, 4002]);
    assert_eq!(server.ports(), &vec![4000, 4001, 4002]);
    let mut state = State::new();
    let mut limiter = RateLimiter::new(10, 1000);
    let mut peer = PeerState::with_start(s("alice"), 41);
    let (datagram, msg_id) = probe_datagram(&mut peer);
    assert_eq!(msg_id, 42);
    let source = PeerAddr::V4([127, 0, 0, 1], 53211);
    let reply = state
        .handle_datagram(&mut limiter, &s("server"), &datagram, source, 0)
        .unwrap()
        .expect("a reply");
    let m = accept_reply(&reply, msg_id, PayloadKind::ProbeReply).expect("awaited reply");
    assert_eq!(m.peer_id(), "server");
    let p: ProbeReply = reply_payload(&m).unwrap();
    assert_eq!(p.public_addr, source);
    // The same reply is not the one awaited by another request or kind.
    assert!(accept_reply(&reply, msg_id + 1, PayloadKind::ProbeReply).is_none());
    assert!(accept_reply(&reply, msg_id, PayloadKind::Ack).is_none());
    assert!(accept_reply(&[1, 2, 3], msg_id, PayloadKind::ProbeReply).is_none());
}

#[test]
fn reply_payload_of_wrong_kind() {
    let m = Message::new(s("srv"), 1, Ack {});
    let e = reply_payload::<ProbeReply>(&m).unwrap_err();
    assert_eq!(e.kind, NetworkErrorKind::Deserialize(ErrorKind::WrongKind));
}

#[test]
fn start_stop_and_samples_through_messages() {
    let mut state = State::new();
    let srv = s("srv");
    let src = PeerAddr::V4([10, 0, 0, 1], 1000);
    let a = Message::new(s("a"), 1, StartRequest { connect_to: s("b") });
    let r = state.handle_message(&srv, src, &a).unwrap();
    let reply: StartReply = reply_payload(&r).unwrap();
    assert_eq!(reply.connection_id, None);
    let b = Message::new(s("b"), 2, StartRequest { connect_to: s("a") });
    let r = state.handle_message(&srv, src, &b).unwrap();
    assert_eq!(r.msg_id(), 2);
    let reply: StartReply = reply_payload(&r).unwrap();
    let id = reply.connection_id.expect("both asked");
    assert!(state.connect_ids.contains(id));

    let sample = Message::new(s("a"), 3, SampleRequest { connection_id: id, src_port: 777, seq_number: 1 });
    let r = state.handle_message(&srv, src, &sample).unwrap();
    assert_eq!(r.kind(), PayloadKind::Ack);
    assert_eq!(state.samples.len(), 1);
    let got = state.samples.get(0);
    assert_eq!((got.peer_id.as_str(), got.peer_addr, got.connection_id, got.src_port, got.seq_number), ("a", src, id, 777, 1));

    let stop = Message::new(s("a"), 4, StopRequest { connect_to: s("b") });
    let r = state.handle_message(&srv, src, &stop).unwrap();
    assert_eq!(r.kind(), PayloadKind::Ack);
    assert_eq!(state.connect_requests.pair_state(&s("a"), &s("b")), PairState::Absent);

    let unexpected = Message::new(s("a"), 5, Ack {});
    assert_eq!(
        state.handle_message(&srv, src, &unexpected).unwrap_err(),
        HandleError::Unexpected(PayloadKind::Ack)
    );
}

#[test]
fn datagrams_refused_or_malformed_get_no_reply() {
    let mut state = State::new();
    let mut limiter = RateLimiter::new(1, 1000);
    let srv = s("srv");
    let src = PeerAddr::V6([0; 16], 9);
    assert_eq!(state.handle_datagram(&mut limiter, &srv, &[0xff, 0xff], src, 0), Ok(None));
    // The limiter's one token went on the malformed datagram.
    let good = Message::new(s("a"), 1, ProbeRequest {}).to_bytes();
    assert_eq!(state.handle_datagram(&mut limiter, &srv, &good, src, 10), Ok(None));
    assert!(state.handle_datagram(&mut limiter, &srv, &good, src, 1000).unwrap().is_some());
}

#[test]
fn supervisor_terminates_only_on_fault() {
    assert_eq!(supervise(TaskOutcome::Faulted), SupervisorAction::Terminate);
    assert_eq!(supervise(TaskOutcome::Failed), SupervisorAction::KeepWaiting);
    assert_eq!(supervise(TaskOutcome::Finished), SupervisorAction::KeepWaiting);
}

#[test]
fn port_range_is_inclusive() {
    assert_eq!(RendezvousServer::with_port_range(4000, 4002).ports(), &vec![4000, 4001, 4002]);
    assert_eq!(RendezvousServer::with_port_range(65535, 65535).ports(), &vec![65535]);
    assert!(RendezvousServer::with_port_range(5, 4).ports().is_empty());
}

#[test]
fn correlation_ids_wrap() {
    let mut peer = PeerState::with_start(s("p"), u32::MAX);
    let m = peer.new_message(Ack {});
    assert_eq!(m.msg_id(), 0);
    assert_eq!(peer.msg_id(), 0);
    let m = peer.new_message(Ack {});
    assert_eq!(m.msg_id(), 1);
    let fresh = PeerState::new(None);
    assert_eq!(fresh.peer_id(), "");
}

#[test]
fn reply_wait_keeps_its_deadline() {
    let mut peer = PeerState::with_start(s("p"), 0);
    let m = peer.new_message(ProbeRequest {});
    let wait = ReplyWait::new(m.msg_id(), PayloadKind::ProbeReply, 500);
    assert_eq!(wait.deadline_ms(), 3500);
    // Garbage and replies to other requests are discarded; the deadline stays.
    assert!(matches!(wait.on_datagram(&[9, 9, 9], 1000), WaitStep::KeepWaiting));
    let other = Message::new(s("srv"), m.msg_id() + 1, ProbeReply { public_addr: PeerAddr::V4([1, 1, 1, 1], 1) });
    assert!(matches!(wait.on_datagram(&other.to_bytes(), 3000), WaitStep::KeepWaiting));
    assert!(matches!(wait.on_timer(3499), WaitStep::KeepWaiting));
    assert!(matches!(wait.on_timer(3500), WaitStep::TimedOut));
    let good = Message::new(s("srv"), m.msg_id(), ProbeReply { public_addr: PeerAddr::V4([1, 1, 1, 1], 1) });
    assert!(matches!(wait.on_datagram(&good.to_bytes(), 3499), WaitStep::Accept(_)));
    assert!(matches!(wait.on_datagram(&good.to_bytes(), 3500), WaitStep::TimedOut));
}
