use bitcoin::consensus::encode::{deserialize, serialize};
use bitcoin::p2p::message::{NetworkMessage, RawNetworkMessage};
use bitcoin::p2p::message_network;
use bitcoin::p2p::{Address, Magic, ServiceFlags};
use peer_handshake::envelope::{decode_envelope, encode_envelope, MAINNET_MAGIC};
use peer_handshake::version::{decode_version, encode_version, NetAddress, VersionMessage};

fn words(ip: [u8; 16]) -> [u16; 8] {
    let mut w = [0u16; 8];
    for i in 0..8 {
        w[i] = u16::from_be_bytes([ip[2 * i], ip[2 * i + 1]]);
    }
    w
}

fn ours() -> VersionMessage {
    VersionMessage {
        version: 70016,
        services: 0x0c09,
        timestamp: 1_713_000_000,
        receiver: NetAddress {
            services: 1,
            ip: [0, 0, 0, 0, 0, 0, 0, 0, 0, 0, 0xff, 0xff, 203, 0, 113, 5],
            port: 8333,
        },
        sender: NetAddress {
            services: 0,
            ip: [0x20, 0x01, 0x0d, 0xb8, 0, 0, 0, 0, 0, 0, 0, 0, 0, 0, 0x12, 0x34],
            port: 18333,
        },
        nonce: 0x0123_4567_89ab_cdef,
        user_agent: b"/Satoshi:27.0.0/".to_vec(),
        start_height: 840_000,
        relay: true,
    }
}

fn theirs(m: &VersionMessage) -> message_network::VersionMessage {
    let addr = |a: &NetAddress| Address {
        services: ServiceFlags::from(a.services),
        address: words(a.ip),
        port: a.port,
    };
    message_network::VersionMessage {
        version: m.version as u32,
        services: ServiceFlags::from(m.services),
        timestamp: m.timestamp,
        receiver: addr(&m.receiver),
        sender: addr(&m.sender),
        nonce: m.nonce,
        user_agent: String::from_utf8(m.user_agent.clone()).unwrap(),
        start_height: m.start_height,
        relay: m.relay,
    }
}

#[test]
fn version_bytes_match_bitcoin() {
    let m = ours();
    let expected = serialize(&theirs(&m));
    assert_eq!(encode_version(&m), expected);
    let back: message_network::VersionMessage = deserialize(&encode_version(&m)).unwrap();
    assert_eq!(back, theirs(&m));
    let decoded = decode_version(&expected).unwrap();
    assert_eq!(decoded.nonce, m.nonce);
    assert_eq!(decoded.user_agent, m.user_agent);
}

#[test]
fn envelopes_match_bitcoin() {
    let m = ours();
    let raw = RawNetworkMessage::new(Magic::BITCOIN, NetworkMessage::Version(theirs(&m)));
    let expected = serialize(&raw);
    let bytes = encode_envelope(MAINNET_MAGIC, b"version", &encode_version(&m)).unwrap();
    assert_eq!(bytes, expected);
    let verack = serialize(&RawNetworkMessage::new(Magic::BITCOIN, NetworkMessage::Verack));
    assert_eq!(encode_envelope(MAINNET_MAGIC, b"verack", &[]).unwrap(), verack);
    let env = decode_envelope(&verack, 10).unwrap();
    assert_eq!(env.command, b"verack".to_vec());
    assert!(env.payload.is_empty());
}
