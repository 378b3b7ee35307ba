//! One peer's handshake, as a machine from state and event to next state and
//! action. The caller owns the socket: it performs each action and reports
//! what happened as the next event.
use vstd::prelude::*;
use crate::envelope::{
    encode_envelope, envelope_bytes, lemma_envelope_round_trip, parse_envelope, valid_command,
    Envelope, EnvelopeView,
};
use crate::peer::{ip_bytes, ip_to_bytes, IpAddress, PeerAddress, DEFAULT_PORT};
use crate::version::{
    decode_version, encode_version, is_utf8, is_utf8_text, lemma_version_round_trip, parse_version, version_bytes,
    NetAddress, NetAddressView, VersionMessage,
};
use crate::wire::CodecError;

verus! {

/// Service bits of a node that advertises nothing.
pub const SERVICES_NONE: u64 = 0;

/// Service bit of a node that serves the full chain.
pub const SERVICES_NETWORK: u64 = 1;

/// The address this node reports for itself: 127.0.0.1.
pub const LOCALHOST: u32 = 0x7f00_0001;

/// The longest user agent a session announces, so that its version payload
/// fits the 32-bit length of an envelope.
pub const MAX_USER_AGENT_LEN: usize = 0xffff_0000;

/// Relies on bitcoin's `p2p::PROTOCOL_VERSION`: the protocol version that this
/// node announces.
#[verifier::external_body]
fn protocol_version() -> (r: u32)
    ensures
        r == 70001,
{
    bitcoin::p2p::PROTOCOL_VERSION
}

#[derive(Clone, Copy, Debug, PartialEq, Eq, Structural)]
pub enum HandshakeError {
    /// The transport connection could not be opened.
    ConnectError,
    /// A read or write failed after the connection was open.
    IoError,
    /// The peer sent bytes that are not a well-formed envelope.
    Codec(CodecError),
    /// A message came where the handshake required another.
    ProtocolError,
    /// The peer announced this session's own nonce.
    SelfConnection,
    /// The attempt did not finish in time.
    Timeout,
}

#[derive(Clone, Copy, Debug, PartialEq, Eq, Structural)]
pub enum HandshakeState {
    Disconnected,
    Connecting,
    VersionSent,
    VersionReceived,
    VerackSent,
    VerackReceived,
    Failed(HandshakeError),
}

/// What the caller observed since the last action.
#[derive(Debug)]
pub enum Event {
    Begin,
    Connected,
    ConnectFailed,
    Sent,
    IoFailed,
    TimedOut,
    Received(Envelope),
    ReceiveFailed(CodecError),
}

/// What the caller is to do next.
#[derive(Debug)]
pub enum Action {
    /// Open the transport connection to the remote address.
    Connect,
    /// Write these bytes to the connection.
    Send(Vec<u8>),
    /// Read one envelope from the connection.
    Receive,
    /// The handshake is complete.
    Done,
    /// The handshake failed: close the connection.
    Close,
}

#[derive(Debug)]
pub struct PeerSession {
    pub remote: PeerAddress,
    pub magic: u32,
    pub local: VersionMessage,
    pub state: HandshakeState,
    pub negotiated: Option<VersionMessage>,
}

pub open spec fn version_command() -> Seq<u8> {
    seq![118u8, 101u8, 114u8, 115u8, 105u8, 111u8, 110u8]
}

pub open spec fn verack_command() -> Seq<u8> {
    seq![118u8, 101u8, 114u8, 97u8, 99u8, 107u8]
}

pub open spec fn is_terminal(st: HandshakeState) -> bool {
    st is VerackReceived || st is Failed
}

/// The version announcement a session sends.
pub open spec fn version_envelope(s: PeerSession) -> EnvelopeView {
    EnvelopeView { magic: s.magic, command: version_command(), payload: version_bytes(s.local@) }
}

/// The acknowledgment a session sends: no payload.
pub open spec fn verack_envelope(s: PeerSession) -> EnvelopeView {
    EnvelopeView { magic: s.magic, command: verack_command(), payload: seq![] }
}

/// The state after the peer's first envelope.
pub open spec fn on_version(s: PeerSession, e: EnvelopeView) -> HandshakeState {
    if e.magic != s.magic || e.command != version_command() {
        HandshakeState::Failed(HandshakeError::ProtocolError)
    } else if parse_version(e.payload) is None {
        HandshakeState::Failed(HandshakeError::ProtocolError)
    } else if parse_version(e.payload)->0.nonce == s.local.nonce {
        HandshakeState::Failed(HandshakeError::SelfConnection)
    } else {
        HandshakeState::VersionReceived
    }
}

/// The state after the peer's second envelope: only an acknowledgment is
/// accepted there.
pub open spec fn on_verack(s: PeerSession, e: EnvelopeView) -> HandshakeState {
    if e.magic == s.magic && e.command == verack_command() {
        HandshakeState::VerackReceived
    } else {
        HandshakeState::Failed(HandshakeError::ProtocolError)
    }
}

pub open spec fn next_state(s: PeerSession, ev: Event) -> HandshakeState {
    if is_terminal(s.state) {
        s.state
    } else {
        match ev {
            Event::IoFailed => HandshakeState::Failed(HandshakeError::IoError),
            Event::TimedOut => HandshakeState::Failed(HandshakeError::Timeout),
            Event::ReceiveFailed(c) => HandshakeState::Failed(HandshakeError::Codec(c)),
            Event::ConnectFailed => HandshakeState::Failed(HandshakeError::ConnectError),
            Event::Begin => if s.state is Disconnected {
                HandshakeState::Connecting
            } else {
                HandshakeState::Failed(HandshakeError::ProtocolError)
            },
            Event::Connected => if s.state is Connecting {
                HandshakeState::VersionSent
            } else {
                HandshakeState::Failed(HandshakeError::ProtocolError)
            },
            Event::Sent => if s.state is VersionSent {
                HandshakeState::VersionSent
            } else if s.state is VersionReceived {
                HandshakeState::VerackSent
            } else {
                HandshakeState::Failed(HandshakeError::ProtocolError)
            },
            Event::Received(e) => if s.state is VersionSent {
                on_version(s, e@)
            } else if s.state is VerackSent {
                on_verack(s, e@)
            } else {
                HandshakeState::Failed(HandshakeError::ProtocolError)
            },
        }
    }
}

/// The action that goes with a step from `s` into state `st`.
pub open spec fn action_fits(s: PeerSession, st: HandshakeState, a: Action) -> bool {
    match st {
        HandshakeState::VerackReceived => a is Done,
        HandshakeState::Failed(_) => a is Close,
        HandshakeState::Connecting => a is Connect,
        HandshakeState::VersionSent => if s.state is Connecting {
            a is Send && a->Send_0@ == envelope_bytes(version_envelope(s))
        } else {
            a is Receive
        },
        HandshakeState::VersionReceived => a is Send && a->Send_0@ == envelope_bytes(
            verack_envelope(s),
        ),
        HandshakeState::VerackSent => a is Receive,
        HandshakeState::Disconnected => false,
    }
}

/// The version message a session announces to `remote`.
pub open spec fn local_version_fits(
    m: VersionMessage,
    remote: PeerAddress,
    nonce: u64,
    timestamp: i64,
    user_agent: Seq<u8>,
    start_height: i32,
) -> bool {
    &&& m.version == 70001
    &&& m.services == SERVICES_NONE
    &&& m.timestamp == timestamp
    &&& m.receiver@ == NetAddressView {
        services: SERVICES_NETWORK,
        ip: ip_bytes(remote.ip),
        port: remote.port,
    }
    &&& m.sender@ == NetAddressView {
        services: SERVICES_NONE,
        ip: ip_bytes(IpAddress::V4(LOCALHOST)),
        port: DEFAULT_PORT,
    }
    &&& m.nonce == nonce
    &&& m.user_agent@ == user_agent
    &&& m.start_height == start_height
    &&& !m.relay
}

fn command_bytes(verack: bool) -> (r: Vec<u8>)
    ensures
        r@ == if verack { verack_command() } else { version_command() },
{
    let mut r: Vec<u8> = Vec::new();
    r.push(118);
    r.push(101);
    r.push(114);
    if verack {
        r.push(97);
        r.push(99);
        r.push(107);
    } else {
        r.push(115);
        r.push(105);
        r.push(111);
        r.push(110);
    }
    assert(r@ =~= if verack { verack_command() } else { version_command() });
    r
}

fn same_bytes(a: &[u8], b: &[u8]) -> (r: bool)
    ensures
        r == (a@ == b@),
{
    if a.len() != b.len() {
        return false;
    }
    let mut i: usize = 0;
    while i < a.len()
        invariant
            a@.len() == b@.len(),
            i <= a@.len(),
            forall|j: int| 0 <= j < i ==> a@[j] == b@[j],
        decreases a@.len() - i,
    {
        if a[i] != b[i] {
            return false;
        }
        i = i + 1;
    }
    assert(a@ =~= b@);
    true
}

proof fn lemma_commands_valid()
    ensures
        valid_command(version_command()),
        valid_command(verack_command()),
{
    assert forall|i: int| 0 <= i < version_command().len() implies version_command()[i] != 0 by {
    }
    assert forall|i: int| 0 <= i < verack_command().len() implies verack_command()[i] != 0 by {
    }
}

impl PeerSession {
    pub open spec fn wf(&self) -> bool {
        &&& self.local.user_agent@.len() <= MAX_USER_AGENT_LEN
        &&& is_utf8(self.local.user_agent@)
        &&& (self.state is VersionReceived || self.state is VerackSent
            || self.state is VerackReceived) ==> self.negotiated is Some
    }

    /// Whether a user agent can be announced: UTF-8, and short enough for
    /// the version payload to fit an envelope.
    pub fn valid_user_agent(user_agent: &[u8]) -> (r: bool)
        ensures
            r == (user_agent@.len() <= MAX_USER_AGENT_LEN && is_utf8(user_agent@)),
    {
        user_agent.len() <= MAX_USER_AGENT_LEN && is_utf8_text(user_agent)
    }

    /// The result of a session that has ended: the peer's version on
    /// success, the reason on failure; `None` while it is still running.
    pub fn into_outcome(self) -> (r: Option<Result<VersionMessage, HandshakeError>>)
        requires
            self.wf(),
        ensures
            match self.state {
                HandshakeState::VerackReceived => r == Some(
                    Ok::<VersionMessage, HandshakeError>(self.negotiated->0),
                ),
                HandshakeState::Failed(e) => r == Some(Err::<VersionMessage, HandshakeError>(e)),
                _ => r is None,
            },
    {
        match self.state {
            HandshakeState::VerackReceived => match self.negotiated {
                Some(v) => Some(Ok(v)),
                None => None,
            },
            HandshakeState::Failed(e) => Some(Err(e)),
            _ => None,
        }
    }

    /// A session that has not started, announcing a version message with the
    /// protocol's version, no services, the remote as receiver, this node at
    /// 127.0.0.1 on the default port as sender, and the given nonce (drawn at
    /// random by the caller), time, user agent and height.
    pub fn new(
        remote: PeerAddress,
        magic: u32,
        nonce: u64,
        timestamp: i64,
        user_agent: Vec<u8>,
        start_height: i32,
    ) -> (r: PeerSession)
        requires
            user_agent@.len() <= MAX_USER_AGENT_LEN,
            is_utf8(user_agent@),
        ensures
            r.wf(),
            r.remote == remote,
            r.magic == magic,
            r.state == HandshakeState::Disconnected,
            r.negotiated is None,
            local_version_fits(r.local, remote, nonce, timestamp, user_agent@, start_height),
    {
        let local = VersionMessage {
            version: protocol_version() as i32,
            services: SERVICES_NONE,
            timestamp,
            receiver: NetAddress {
                services: SERVICES_NETWORK,
                ip: ip_to_bytes(remote.ip),
                port: remote.port,
            },
            sender: NetAddress {
                services: SERVICES_NONE,
                ip: ip_to_bytes(IpAddress::V4(LOCALHOST)),
                port: DEFAULT_PORT,
            },
            nonce,
            user_agent,
            start_height,
            relay: false,
        };
        PeerSession { remote, magic, local, state: HandshakeState::Disconnected, negotiated: None }
    }

    fn envelope_of(&self, verack: bool) -> (r: Vec<u8>)
        requires
            self.wf(),
        ensures
            r@ == envelope_bytes(
                if verack {
                    verack_envelope(*self)
                } else {
                    version_envelope(*self)
                },
            ),
    {
        let payload = if verack {
            Vec::new()
        } else {
            encode_version(&self.local)
        };
        let command = command_bytes(verack);
        assert(payload@.len() <= u32::MAX);
        match encode_envelope(self.magic, command.as_slice(), payload.as_slice()) {
            Ok(bytes) => {
                assert(payload@ =~= if verack {
                    verack_envelope(*self).payload
                } else {
                    version_envelope(*self).payload
                });
                bytes
            },
            Err(_) => Vec::new(),
        }
    }

    /// Moves the handshake one step. The state follows `next_state`, the
    /// action `action_fits`; the peer's version is kept once it is accepted.
    pub fn handle(&mut self, ev: Event) -> (a: Action)
        requires
            old(self).wf(),
        ensures
            final(self).wf(),
            final(self).remote == old(self).remote,
            final(self).magic == old(self).magic,
            final(self).local == old(self).local,
            final(self).state == next_state(*old(self), ev),
            action_fits(*old(self), final(self).state, a),
            if old(self).state is VersionSent && final(self).state is VersionReceived {
                final(self).negotiated is Some && final(self).negotiated->0@ == parse_version(
                    ev->Received_0@.payload,
                )->0
            } else {
                final(self).negotiated == old(self).negotiated
            },
    {
        match self.state {
            HandshakeState::VerackReceived => return Action::Done,
            HandshakeState::Failed(_) => return Action::Close,
            _ => {},
        }
        match ev {
            Event::IoFailed => self.fail(HandshakeError::IoError),
            Event::TimedOut => self.fail(HandshakeError::Timeout),
            Event::ReceiveFailed(c) => self.fail(HandshakeError::Codec(c)),
            Event::ConnectFailed => self.fail(HandshakeError::ConnectError),
            Event::Begin => {
                if self.state == HandshakeState::Disconnected {
                    self.state = HandshakeState::Connecting;
                    Action::Connect
                } else {
                    self.fail(HandshakeError::ProtocolError)
                }
            },
            Event::Connected => {
                if self.state == HandshakeState::Connecting {
                    let bytes = self.envelope_of(false);
                    self.state = HandshakeState::VersionSent;
                    Action::Send(bytes)
                } else {
                    self.fail(HandshakeError::ProtocolError)
                }
            },
            Event::Sent => {
                if self.state == HandshakeState::VersionSent {
                    Action::Receive
                } else if self.state == HandshakeState::VersionReceived {
                    self.state = HandshakeState::VerackSent;
                    Action::Receive
                } else {
                    self.fail(HandshakeError::ProtocolError)
                }
            },
            Event::Received(e) => {
                if self.state == HandshakeState::VersionSent {
                    self.receive_version(e)
                } else if self.state == HandshakeState::VerackSent {
                    let verack = command_bytes(true);
                    if e.magic == self.magic && same_bytes(e.command.as_slice(), verack.as_slice()) {
                        self.state = HandshakeState::VerackReceived;
                        Action::Done
                    } else {
                        self.fail(HandshakeError::ProtocolError)
                    }
                } else {
                    self.fail(HandshakeError::ProtocolError)
                }
            },
        }
    }

    fn fail(&mut self, err: HandshakeError) -> (a: Action)
        ensures
            final(self).state == HandshakeState::Failed(err),
            final(self).remote == old(self).remote,
            final(self).magic == old(self).magic,
            final(self).local == old(self).local,
            final(self).negotiated == old(self).negotiated,
            a is Close,
    {
        self.state = HandshakeState::Failed(err);
        Action::Close
    }

    #[verifier::rlimit(40)]
    fn receive_version(&mut self, e: Envelope) -> (a: Action)
        requires
            old(self).wf(),
            old(self).state is VersionSent,
        ensures
            final(self).remote == old(self).remote,
            final(self).magic == old(self).magic,
            final(self).local == old(self).local,
            final(self).state == on_version(*old(self), e@),
            action_fits(*old(self), final(self).state, a),
            if final(self).state is VersionReceived {
                final(self).negotiated is Some && final(self).negotiated->0@ == parse_version(
                    e@.payload,
                )->0
            } else {
                final(self).negotiated == old(self).negotiated
            },
    {
        let version = command_bytes(false);
        if e.magic != self.magic || !same_bytes(e.command.as_slice(), version.as_slice()) {
            return self.fail(HandshakeError::ProtocolError);
        }
        match decode_version(e.payload.as_slice()) {
            Err(_) => self.fail(HandshakeError::ProtocolError),
            Ok(m) => {
                if m.nonce == self.local.nonce {
                    self.fail(HandshakeError::SelfConnection)
                } else {
                    let bytes = self.envelope_of(true);
                    self.negotiated = Some(m);
                    self.state = HandshakeState::VersionReceived;
                    Action::Send(bytes)
                }
            },
        }
    }
}

/// One side of a self-connection: `a` receives the version envelope of `b`.
proof fn lemma_receives_own_nonce(a: PeerSession, b: PeerSession)
    requires
        b.wf(),
        a.state is VersionSent,
        a.magic == b.magic,
        a.local.nonce == b.local.nonce,
    ensures
        on_version(a, version_envelope(b)) == HandshakeState::Failed(HandshakeError::SelfConnection),
        forall|e: Envelope|
            e@ == version_envelope(b) ==> #[trigger] next_state(a, Event::Received(e))
                == HandshakeState::Failed(HandshakeError::SelfConnection),
{
    lemma_version_round_trip(b.local@);
    let v = on_version(a, version_envelope(b));
    assert(v == HandshakeState::Failed(HandshakeError::SelfConnection));
    assert forall|e: Envelope| e@ == version_envelope(b) implies #[trigger] next_state(
        a,
        Event::Received(e),
    ) == v by {
        lemma_next_on_received(a, e);
    }
}

proof fn lemma_next_on_received(s: PeerSession, e: Envelope)
    requires
        s.state is VersionSent,
    ensures
        next_state(s, Event::Received(e)) == on_version(s, e@),
{
}

/// Two sessions that dial each other with equal nonces both fail with
/// `SelfConnection`: each one decodes the version envelope that the other
/// sent and finds its own nonce in it, so `handle` moves each to that
/// failure when it receives what the other sent.
pub proof fn lemma_self_connection(a: PeerSession, b: PeerSession, max_payload: u32)
    requires
        a.wf(),
        b.wf(),
        a.state is VersionSent,
        b.state is VersionSent,
        a.magic == b.magic,
        a.local.nonce == b.local.nonce,
        version_bytes(a.local@).len() <= max_payload,
        version_bytes(b.local@).len() <= max_payload,
    ensures
        parse_envelope(envelope_bytes(version_envelope(b)), max_payload) == Ok::<
            EnvelopeView,
            CodecError,
        >(version_envelope(b)),
        parse_envelope(envelope_bytes(version_envelope(a)), max_payload) == Ok::<
            EnvelopeView,
            CodecError,
        >(version_envelope(a)),
        on_version(a, version_envelope(b)) == HandshakeState::Failed(HandshakeError::SelfConnection),
        on_version(b, version_envelope(a)) == HandshakeState::Failed(HandshakeError::SelfConnection),
        forall|e: Envelope|
            e@ == version_envelope(b) ==> #[trigger] next_state(a, Event::Received(e))
                == HandshakeState::Failed(HandshakeError::SelfConnection),
        forall|e: Envelope|
            e@ == version_envelope(a) ==> #[trigger] next_state(b, Event::Received(e))
                == HandshakeState::Failed(HandshakeError::SelfConnection),
{
    lemma_commands_valid();
    lemma_envelope_round_trip(version_envelope(a), max_payload);
    lemma_envelope_round_trip(version_envelope(b), max_payload);
    lemma_receives_own_nonce(a, b);
    lemma_receives_own_nonce(b, a);
}

} // verus!
