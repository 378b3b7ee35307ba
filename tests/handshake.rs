use peer_handshake::envelope::{decode_envelope, encode_envelope, Envelope, MAINNET_MAGIC, MAX_PAYLOAD_LEN};
use peer_handshake::handshake::{Action, Event, HandshakeError, HandshakeState, PeerSession};
use peer_handshake::orchestrator::Orchestrator;
use peer_handshake::peer::{ip_to_bytes, IpAddress, PeerAddress, DEFAULT_PORT};
use peer_handshake::resolver::{peers_from_lookup, ResolutionError};
use peer_handshake::version::{decode_version, encode_version, NetAddress, VersionMessage};
use peer_handshake::wire::CodecError;

fn v4(a: u8, b: u8, c: u8, d: u8) -> IpAddress {
    IpAddress::V4(u32::from_be_bytes([a, b, c, d]))
}

fn session(remote: PeerAddress, nonce: u64) -> PeerSession {
    PeerSession::new(remote, MAINNET_MAGIC, nonce, 1_700_000_000, b"Rust bitcoin testing".to_vec(), 0)
}

fn sent_bytes(a: Action) -> Vec<u8> {
    match a {
        Action::Send(b) => b,
        other => panic!("expected Send, got {:?}", other),
    }
}

fn peer_version(protocol: i32, nonce: u64) -> Envelope {
    let m = VersionMessage {
        version: protocol,
        services: 1,
        timestamp: 1_700_000_100,
        receiver: NetAddress { services: 0, ip: ip_to_bytes(v4(127, 0, 0, 1)), port: 8333 },
        sender: NetAddress { services: 1, ip: ip_to_bytes(v4(203, 0, 113, 5)), port: 8333 },
        nonce,
        user_agent: b"/fake:0.1/".to_vec(),
        start_height: 800_000,
        relay: true,
    };
    let bytes = encode_envelope(MAINNET_MAGIC, b"version", &encode_version(&m)).unwrap();
    decode_envelope(&bytes, MAX_PAYLOAD_LEN).unwrap()
}

fn verack() -> Envelope {
    let bytes = encode_envelope(MAINNET_MAGIC, b"verack", &[]).unwrap();
    decode_envelope(&bytes, MAX_PAYLOAD_LEN).unwrap()
}

/// Drives a session against a peer that answers with a version and a verack.
fn run_against_fake_peer(s: &mut PeerSession, protocol: i32, nonce: u64) -> Action {
    assert!(matches!(s.handle(Event::Begin), Action::Connect));
    let out = sent_bytes(s.handle(Event::Connected));
    let env = decode_envelope(&out, MAX_PAYLOAD_LEN).unwrap();
    assert_eq!(env.command, b"version".to_vec());
    assert!(matches!(s.handle(Event::Sent), Action::Receive));
    let a = s.handle(Event::Received(peer_version(protocol, nonce)));
    if !matches!(a, Action::Send(_)) {
        return a;
    }
    let ack = decode_envelope(&sent_bytes(a), MAX_PAYLOAD_LEN).unwrap();
    assert_eq!(ack.command, b"verack".to_vec());
    assert!(ack.payload.is_empty());
    assert!(matches!(s.handle(Event::Sent), Action::Receive));
    s.handle(Event::Received(verack()))
}

#[test]
fn local_version_message() {
    let remote = PeerAddress { ip: v4(203, 0, 113, 5), port: 8333 };
    let mut s = session(remote, 42);
    assert_eq!(s.state, HandshakeState::Disconnected);
    s.handle(Event::Begin);
    let out = sent_bytes(s.handle(Event::Connected));
    assert_eq!(s.state, HandshakeState::VersionSent);
    let env = decode_envelope(&out, MAX_PAYLOAD_LEN).unwrap();
    let m = decode_version(&env.payload).unwrap();
    assert_eq!(m.version, 70001);
    assert_eq!(m.services, 0);
    assert_eq!(m.nonce, 42);
    assert_eq!(m.receiver.services, 1);
    assert_eq!(m.receiver.ip, [0, 0, 0, 0, 0, 0, 0, 0, 0, 0, 0xff, 0xff, 203, 0, 113, 5]);
    assert_eq!(m.receiver.port, 8333);
    assert_eq!(m.sender.ip, [0, 0, 0, 0, 0, 0, 0, 0, 0, 0, 0xff, 0xff, 127, 0, 0, 1]);
    assert_eq!(m.sender.port, DEFAULT_PORT);
    assert_eq!(m.user_agent, b"Rust bitcoin testing".to_vec());
    assert!(!m.relay);
}

#[test]
fn full_handshake() {
    let remote = PeerAddress { ip: v4(203, 0, 113, 5), port: 8333 };
    let mut s = session(remote, 7);
    let last = run_against_fake_peer(&mut s, 70015, 0xABCD);
    assert!(matches!(last, Action::Done));
    assert_eq!(s.state, HandshakeState::VerackReceived);
    let n = s.negotiated.as_ref().unwrap();
    assert_eq!(n.version, 70015);
    assert_eq!(n.nonce, 0xABCD);
    assert!(matches!(s.handle(Event::Sent), Action::Done));
}

#[test]
fn self_connection_both_sides() {
    let a_addr = PeerAddress { ip: v4(10, 0, 0, 1), port: 8333 };
    let b_addr = PeerAddress { ip: v4(10, 0, 0, 2), port: 8333 };
    let mut a = session(b_addr, 99);
    let mut b = session(a_addr, 99);
    a.handle(Event::Begin);
    b.handle(Event::Begin);
    let from_a = sent_bytes(a.handle(Event::Connected));
    let from_b = sent_bytes(b.handle(Event::Connected));
    a.handle(Event::Sent);
    b.handle(Event::Sent);
    let ra = a.handle(Event::Received(decode_envelope(&from_b, MAX_PAYLOAD_LEN).unwrap()));
    let rb = b.handle(Event::Received(decode_envelope(&from_a, MAX_PAYLOAD_LEN).unwrap()));
    assert!(matches!(ra, Action::Close));
    assert!(matches!(rb, Action::Close));
    assert_eq!(a.state, HandshakeState::Failed(HandshakeError::SelfConnection));
    assert_eq!(b.state, HandshakeState::Failed(HandshakeError::SelfConnection));
    assert!(a.negotiated.is_none());
}

#[test]
fn distinct_nonces_do_not_trip_guard() {
    let mut s = session(PeerAddress { ip: v4(10, 0, 0, 2), port: 8333 }, 1);
    let last = run_against_fake_peer(&mut s, 70015, 2);
    assert!(matches!(last, Action::Done));
}

#[test]
fn connect_failure() {
    let mut s = session(PeerAddress { ip: v4(10, 0, 0, 3), port: 8333 }, 1);
    s.handle(Event::Begin);
    assert!(matches!(s.handle(Event::ConnectFailed), Action::Close));
    assert_eq!(s.state, HandshakeState::Failed(HandshakeError::ConnectError));
    assert!(matches!(s.handle(Event::Connected), Action::Close));
    assert_eq!(s.state, HandshakeState::Failed(HandshakeError::ConnectError));
}

#[test]
fn io_timeout_and_codec_failures() {
    let mut s = session(PeerAddress { ip: v4(10, 0, 0, 3), port: 8333 }, 1);
    s.handle(Event::Begin);
    s.handle(Event::Connected);
    s.handle(Event::IoFailed);
    assert_eq!(s.state, HandshakeState::Failed(HandshakeError::IoError));
    let mut t = session(PeerAddress { ip: v4(10, 0, 0, 3), port: 8333 }, 1);
    t.handle(Event::Begin);
    t.handle(Event::TimedOut);
    assert_eq!(t.state, HandshakeState::Failed(HandshakeError::Timeout));
    let mut u = session(PeerAddress { ip: v4(10, 0, 0, 3), port: 8333 }, 1);
    u.handle(Event::Begin);
    u.handle(Event::Connected);
    u.handle(Event::Sent);
    u.handle(Event::ReceiveFailed(CodecError::ChecksumMismatch));
    assert_eq!(u.state, HandshakeState::Failed(HandshakeError::Codec(CodecError::ChecksumMismatch)));
}

#[test]
fn first_message_must_be_version() {
    let mut s = session(PeerAddress { ip: v4(10, 0, 0, 3), port: 8333 }, 1);
    s.handle(Event::Begin);
    s.handle(Event::Connected);
    s.handle(Event::Sent);
    assert!(matches!(s.handle(Event::Received(verack())), Action::Close));
    assert_eq!(s.state, HandshakeState::Failed(HandshakeError::ProtocolError));
}

#[test]
fn undecodable_version_is_protocol_error() {
    let mut s = session(PeerAddress { ip: v4(10, 0, 0, 3), port: 8333 }, 1);
    s.handle(Event::Begin);
    s.handle(Event::Connected);
    s.handle(Event::Sent);
    let bytes = encode_envelope(MAINNET_MAGIC, b"version", &[1, 2, 3]).unwrap();
    s.handle(Event::Received(decode_envelope(&bytes, MAX_PAYLOAD_LEN).unwrap()));
    assert_eq!(s.state, HandshakeState::Failed(HandshakeError::ProtocolError));
}

#[test]
fn acknowledgment_must_come_next() {
    let mut s = session(PeerAddress { ip: v4(10, 0, 0, 3), port: 8333 }, 1);
    s.handle(Event::Begin);
    s.handle(Event::Connected);
    s.handle(Event::Sent);
    s.handle(Event::Received(peer_version(70015, 5)));
    s.handle(Event::Sent);
    assert_eq!(s.state, HandshakeState::VerackSent);
    let ping = encode_envelope(MAINNET_MAGIC, b"ping", &[0; 8]).unwrap();
    s.handle(Event::Received(decode_envelope(&ping, MAX_PAYLOAD_LEN).unwrap()));
    assert_eq!(s.state, HandshakeState::Failed(HandshakeError::ProtocolError));
    assert_eq!(s.negotiated.as_ref().unwrap().version, 70015);
}

#[test]
fn isolation_of_outcomes() {
    let good = PeerAddress { ip: v4(203, 0, 113, 5), port: 8333 };
    let refused = PeerAddress { ip: v4(203, 0, 113, 9), port: 8333 };
    let mut o = Orchestrator::new(vec![good, refused], 0);
    assert_eq!(o.start_next(), Some(0));
    assert_eq!(o.start_next(), Some(1));
    assert_eq!(o.start_next(), None);
    let mut s = session(refused, 1);
    s.handle(Event::Begin);
    s.handle(Event::ConnectFailed);
    let err = match s.state {
        HandshakeState::Failed(e) => e,
        _ => panic!("expected failure"),
    };
    o.record(1, Err(err));
    let mut g = session(good, 2);
    run_against_fake_peer(&mut g, 70015, 0xABCD);
    o.record(0, Ok(g.negotiated.unwrap()));
    assert!(o.is_finished());
    let report = o.into_report();
    assert_eq!(report.len(), 2);
    assert_eq!(report[0].address, good);
    assert_eq!(report[0].result.as_ref().unwrap().version, 70015);
    assert_eq!(report[1].address, refused);
    assert_eq!(report[1].result.as_ref().unwrap_err(), &HandshakeError::ConnectError);
}

#[test]
fn seed_scenario_reports_fake_peer() {
    let peers = peers_from_lookup(&[v4(203, 0, 113, 5), v4(203, 0, 113, 9)], DEFAULT_PORT).unwrap();
    assert_eq!(peers.len(), 2);
    let mut o = Orchestrator::new(peers.clone(), 0);
    while let Some(i) = o.start_next() {
        let mut s = session(peers[i], 1000 + i as u64);
        if peers[i].ip == v4(203, 0, 113, 5) {
            run_against_fake_peer(&mut s, 70015, 0xABCD);
            o.record(i, Ok(s.negotiated.unwrap()));
        } else {
            s.handle(Event::Begin);
            s.handle(Event::ConnectFailed);
            o.record(i, Err(HandshakeError::ConnectError));
        }
    }
    let report = o.into_report();
    assert_eq!(report.len(), 2);
    assert_eq!(report[0].address, PeerAddress { ip: v4(203, 0, 113, 5), port: 8333 });
    assert_eq!(report[0].result.as_ref().unwrap().version, 70015);
}

#[test]
fn concurrency_limit_and_deadline() {
    let a = PeerAddress { ip: v4(1, 1, 1, 1), port: 8333 };
    let b = PeerAddress { ip: v4(2, 2, 2, 2), port: 8333 };
    let c = PeerAddress { ip: v4(3, 3, 3, 3), port: 8333 };
    let mut o = Orchestrator::new(vec![a, b, c], 1);
    assert_eq!(o.start_next(), Some(0));
    assert_eq!(o.pending(), 1);
    assert_eq!(o.start_next(), None);
    o.record(0, Err(HandshakeError::IoError));
    assert_eq!(o.pending(), 0);
    assert_eq!(o.start_next(), Some(1));
    assert!(!o.is_finished());
    o.expire();
    assert!(o.is_finished());
    let report = o.into_report();
    assert_eq!(report.len(), 3);
    assert_eq!(report[0].result.as_ref().unwrap_err(), &HandshakeError::IoError);
    assert_eq!(report[1].result.as_ref().unwrap_err(), &HandshakeError::Timeout);
    assert_eq!(report[2].result.as_ref().unwrap_err(), &HandshakeError::Timeout);
}

#[test]
fn resolver_results() {
    assert_eq!(peers_from_lookup(&[], 8333).unwrap_err(), ResolutionError::NoAddresses);
    let v6 = IpAddress::V6(0x2001_0db8_0000_0000_0000_0000_0000_0001);
    let peers = peers_from_lookup(&[v4(1, 2, 3, 4), v6, v4(1, 2, 3, 4)], 8333).unwrap();
    assert_eq!(peers, vec![PeerAddress { ip: v4(1, 2, 3, 4), port: 8333 }, PeerAddress { ip: v6, port: 8333 }]);
    assert_eq!(ip_to_bytes(v6), [0x20, 0x01, 0x0d, 0xb8, 0, 0, 0, 0, 0, 0, 0, 0, 0, 0, 0, 1]);
}

#[test]
fn user_agent_validity() {
    assert!(PeerSession::valid_user_agent(b"Rust bitcoin testing"));
    assert!(PeerSession::valid_user_agent(b""));
    assert!(PeerSession::valid_user_agent("caf\u{e9}".as_bytes()));
    assert!(!PeerSession::valid_user_agent(&[b'a', 0xff]));
}

#[test]
fn outcome_of_sessions() {
    let remote = PeerAddress { ip: v4(203, 0, 113, 5), port: 8333 };
    let running = session(remote, 1);
    assert!(running.into_outcome().is_none());
    let mut done = session(remote, 1);
    run_against_fake_peer(&mut done, 70015, 0xABCD);
    assert_eq!(done.into_outcome().unwrap().unwrap().version, 70015);
    let mut failed = session(remote, 1);
    failed.handle(Event::Begin);
    failed.handle(Event::ConnectFailed);
    assert_eq!(failed.into_outcome().unwrap().unwrap_err(), HandshakeError::ConnectError);
}
