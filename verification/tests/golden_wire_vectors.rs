//! Absolute vectors for every byte on the peer wire. None is derived from an encoder: if one of
//! them changes, the wire changed.

use dig_peer_protocol::streamable::StreamError;
use dig_peer_protocol::{
    Bytes, DigMessage, NodeType, RegisterAck, RegisterPeer, RequestPeersIntroducer,
    RespondPeersIntroducer, TimestampedPeerInfo,
};

fn hex(bytes: &[u8]) -> String {
    bytes.iter().map(|b| format!("{b:02x}")).collect()
}

/// A payload that a copy which is short by one, offset by one or padded cannot match.
fn ramp(len: usize) -> Vec<u8> {
    (0..len).map(|i| (i % 251) as u8).collect()
}

/// An id whose two bytes differ, so a little-endian encoding cannot pass by accident.
const ASYMMETRIC_ID: u16 = 0x0102;

#[test]
fn golden_dig_message_frame_with_id_and_large_payload() {
    let msg = DigMessage::new(220, Some(ASYMMETRIC_ID), Bytes::new(ramp(320)));
    let wire = msg.to_bytes();

    assert_eq!(
        hex(&wire[..8]),
        "dc01010200000140",
        "frame header changed: opcode/has_id/id/length-prefix"
    );
    assert_eq!(wire.len(), 1 + 1 + 2 + 4 + 320);
}

#[test]
fn golden_dig_message_frame_without_id_and_empty_payload() {
    let msg = DigMessage::new(218, None, Bytes::default());
    assert_eq!(hex(&msg.to_bytes()), "da0000000000");
}

#[test]
fn golden_dig_message_frame_chia_band_opcode() {
    let msg = DigMessage::new(20, Some(ASYMMETRIC_ID), Bytes::new(vec![0xab, 0xcd]));
    assert_eq!(hex(&msg.to_bytes()), "1401010200000002abcd");
}

#[test]
fn golden_register_peer_body_full_node() {
    let rp = RegisterPeer::new("192.168.1.1".into(), 9444, NodeType::FullNode);
    assert_eq!(
        hex(&rp.to_bytes().expect("encode")),
        "0000000b3139322e3136382e312e3124e401"
    );
}

#[test]
fn golden_register_peer_body_introducer_node_type() {
    let rp = RegisterPeer::new("203.0.113.7".into(), 18444, NodeType::Introducer);
    assert_eq!(
        hex(&rp.to_bytes().expect("encode")),
        "0000000b3230332e302e3131332e37480c05"
    );
}

#[test]
fn golden_register_ack_body_both_polarities() {
    assert_eq!(
        hex(&RegisterAck::new(true).to_bytes().expect("encode")),
        "01"
    );
    assert_eq!(
        hex(&RegisterAck::new(false).to_bytes().expect("encode")),
        "00"
    );
}

#[test]
fn golden_request_peers_introducer_body_is_empty() {
    assert_eq!(
        hex(&RequestPeersIntroducer::new().to_bytes().expect("encode")),
        ""
    );
}

/// A list of two entries: the length prefix, then each host, port and timestamp.
fn two_peers() -> String {
    [
        "00000002",
        "0000000b",
        "3230332e302e3131332e37",
        "24e4",
        "000000006553f100",
        "0000000d",
        "3139382e35312e3130302e3432",
        "480c",
        "000000006553f2f4",
    ]
    .concat()
}

#[test]
fn golden_respond_peers_introducer_body_with_two_peers() {
    let resp = RespondPeersIntroducer::new(vec![
        TimestampedPeerInfo::new("203.0.113.7".into(), 9444, 1_700_000_000),
        TimestampedPeerInfo::new("198.51.100.42".into(), 18444, 1_700_000_500),
    ]);
    assert_eq!(hex(&resp.to_bytes().expect("encode")), two_peers());
}

#[test]
fn golden_respond_peers_introducer_body_empty_list() {
    assert_eq!(
        hex(&RespondPeersIntroducer::new(vec![])
            .to_bytes()
            .expect("encode")),
        "00000000"
    );
}

fn unhex(s: &str) -> Vec<u8> {
    assert!(s.len() % 2 == 0, "hex literal must have even length");
    (0..s.len() / 2)
        .map(|i| u8::from_str_radix(&s[i * 2..i * 2 + 2], 16).expect("valid hex"))
        .collect()
}

#[test]
fn golden_decode_dig_message_frame_with_id_and_large_payload() {
    let wire = {
        let mut w = unhex("dc01010200000140");
        w.extend_from_slice(&ramp(320));
        w
    };
    let msg = DigMessage::from_bytes(&wire).expect("the frame must decode");
    assert_eq!(msg.msg_type, 220);
    assert_eq!(msg.id, Some(ASYMMETRIC_ID));
    assert_eq!(msg.data.as_ref(), &ramp(320)[..]);
}

#[test]
fn golden_decode_dig_message_frame_without_id_and_empty_payload() {
    let msg = DigMessage::from_bytes(&unhex("da0000000000")).expect("the frame must decode");
    assert_eq!(msg.msg_type, 218);
    assert_eq!(msg.id, None);
    assert!(msg.data.as_ref().is_empty());
}

#[test]
fn golden_decode_dig_message_frame_chia_band_opcode() {
    let msg = DigMessage::from_bytes(&unhex("1401010200000002abcd")).expect("the frame must decode");
    assert_eq!(msg.msg_type, 20);
    assert_eq!(msg.id, Some(ASYMMETRIC_ID));
    assert_eq!(msg.data.as_ref(), &[0xab, 0xcd]);
}

#[test]
fn golden_decode_register_peer_body_full_node() {
    let rp = RegisterPeer::from_bytes(&unhex("0000000b3139322e3136382e312e3124e401"))
        .expect("the body must decode");
    assert_eq!(rp.ip, "192.168.1.1");
    assert_eq!(rp.port, 9444);
    assert_eq!(rp.node_type, NodeType::FullNode);
}

#[test]
fn golden_decode_register_peer_body_introducer_node_type() {
    let rp = RegisterPeer::from_bytes(&unhex("0000000b3230332e302e3131332e37480c05"))
        .expect("the body must decode");
    assert_eq!(rp.ip, "203.0.113.7");
    assert_eq!(rp.port, 18444);
    assert_eq!(rp.node_type, NodeType::Introducer);
}

#[test]
fn golden_decode_register_ack_body_both_polarities() {
    assert!(
        RegisterAck::from_bytes(&unhex("01"))
            .expect("the body must decode")
            .success
    );
    assert!(
        !RegisterAck::from_bytes(&unhex("00"))
            .expect("the body must decode")
            .success
    );
}

#[test]
fn golden_decode_respond_peers_introducer_body_with_two_peers() {
    let resp = RespondPeersIntroducer::from_bytes(&unhex(&two_peers())).expect("the list must decode");
    assert_eq!(
        resp.peer_list,
        vec![
            TimestampedPeerInfo::new("203.0.113.7".into(), 9444, 1_700_000_000),
            TimestampedPeerInfo::new("198.51.100.42".into(), 18444, 1_700_000_500),
        ]
    );
}

#[test]
fn golden_decode_respond_peers_introducer_body_empty_list() {
    let resp = RespondPeersIntroducer::from_bytes(&unhex("00000000")).expect("must decode");
    assert!(resp.peer_list.is_empty());
}

#[test]
fn each_body_error_has_its_input() {
    assert_eq!(
        RegisterPeer::from_bytes(&unhex("0000000b3139")).err(),
        Some(StreamError::EndOfBuffer)
    );
    assert_eq!(
        RegisterPeer::from_bytes(&unhex("00000001ff24e401")).err(),
        Some(StreamError::InvalidString)
    );
    assert_eq!(
        RegisterPeer::from_bytes(&unhex("000000016124e409")).err(),
        Some(StreamError::InvalidEnum)
    );
    assert_eq!(
        RegisterPeer::from_bytes(&unhex("000000016124e40100")).err(),
        Some(StreamError::InputTooLarge)
    );
    assert_eq!(
        RegisterAck::from_bytes(&unhex("02")).err(),
        Some(StreamError::InvalidBool)
    );
    assert_eq!(RegisterAck::from_bytes(&[]).err(), Some(StreamError::EndOfBuffer));
    assert_eq!(
        RegisterAck::from_bytes(&unhex("0100")).err(),
        Some(StreamError::InputTooLarge)
    );
    assert_eq!(
        RequestPeersIntroducer::from_bytes(&[0]).err(),
        Some(StreamError::InputTooLarge)
    );
    assert_eq!(
        RespondPeersIntroducer::from_bytes(&unhex("ffffffff")).err(),
        Some(StreamError::EndOfBuffer)
    );
}

/// The bodies agree with Chia's own encoding of the same values.
#[test]
fn a_peer_list_is_encoded_as_chia_encodes_it() {
    let entries = vec![
        chia_protocol::TimestampedPeerInfo::new("2001:db8::1".into(), 8444, u64::MAX),
        chia_protocol::TimestampedPeerInfo::new("".into(), 0, 0),
    ];
    let theirs = chia_traits::Streamable::to_bytes(&entries).expect("chia encode");
    let ours = RespondPeersIntroducer::new(vec![
        TimestampedPeerInfo::new("2001:db8::1".into(), 8444, u64::MAX),
        TimestampedPeerInfo::new("".into(), 0, 0),
    ]);
    assert_eq!(ours.to_bytes().expect("encode"), theirs);
    assert_eq!(RespondPeersIntroducer::from_bytes(&theirs).expect("decode"), ours);
    assert_eq!(RequestPeersIntroducer::OPCODE, 63);
    assert_eq!(RespondPeersIntroducer::OPCODE, 64);
}

#[test]
fn a_registration_travels_in_the_envelope() {
    let registration = RegisterPeer::new("h\u{f6}st".into(), 1, NodeType::FullNode);
    let message = registration.to_dig_message(Some(4)).expect("encode");
    assert_eq!(message.msg_type, 218);
    assert_eq!(message.id, Some(4));
    assert_eq!(
        RegisterPeer::from_dig_message(&message).expect("the opcode").expect("decode"),
        registration
    );
    assert!(RegisterAck::from_dig_message(&message).is_none());

    let ack = RegisterAck::new(false).to_dig_message(None).expect("encode");
    assert_eq!(ack.msg_type, 219);
    assert_eq!(RegisterAck::from_dig_message(&ack), Some(Ok(RegisterAck::new(false))));
    assert!(RegisterPeer::from_dig_message(&ack).is_none());

    let empty = DigMessage::new(219, None, Bytes::default());
    assert_eq!(
        RegisterAck::from_dig_message(&empty),
        Some(Err(StreamError::EndOfBuffer))
    );
}
