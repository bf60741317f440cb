//! The envelope is byte-identical to `chia_protocol::Message`, over every opcode that Chia
//! accepts, with and without an id, and over payloads that no narrower length prefix expresses.

use chia_protocol::{Bytes as ChiaBytes, Message, ProtocolMessageTypes};
use chia_traits::Streamable;
use dig_peer_protocol::{Bytes, DigMessage, DigMessageType};

fn all_chia_opcodes() -> Vec<u8> {
    (0..=u8::MAX)
        .filter(|byte| ProtocolMessageTypes::from_bytes(&[*byte]).is_ok())
        .collect()
}

const PAYLOAD_LENGTHS: [usize; 4] = [0, 1, 300, 65_600];

const ASYMMETRIC_ID: u16 = 0x0102;

#[test]
fn dig_message_encodes_byte_identically_to_chia_message() {
    let opcodes = all_chia_opcodes();
    assert!(
        opcodes.len() > 100,
        "probe found only {} opcodes: the fixture is not exercising the real namespace",
        opcodes.len()
    );

    for opcode in opcodes {
        let chia_type = ProtocolMessageTypes::from_bytes(&[opcode]).expect("probed as valid");

        for id in [None, Some(ASYMMETRIC_ID)] {
            for len in PAYLOAD_LENGTHS {
                let payload: Vec<u8> = (0..len).map(|i| (i % 251) as u8).collect();

                let chia = Message {
                    msg_type: chia_type,
                    id,
                    data: ChiaBytes::new(payload.clone()),
                };
                let dig = DigMessage::new(opcode, id, Bytes::new(payload));

                assert_eq!(
                    dig.to_bytes(),
                    chia.to_bytes().expect("chia encode"),
                    "encoding diverged for opcode {opcode} (id={id:?}, payload_len={len})"
                );
            }
        }
    }
}

#[test]
fn dig_message_decodes_what_chia_message_encoded() {
    for opcode in all_chia_opcodes() {
        let chia_type = ProtocolMessageTypes::from_bytes(&[opcode]).expect("probed as valid");

        for id in [None, Some(ASYMMETRIC_ID)] {
            for len in PAYLOAD_LENGTHS {
                let payload: Vec<u8> = (0..len).map(|i| (i % 251) as u8).collect();
                let wire = Message {
                    msg_type: chia_type,
                    id,
                    data: ChiaBytes::new(payload.clone()),
                }
                .to_bytes()
                .expect("chia encode");

                let decoded = DigMessage::from_bytes(&wire)
                    .unwrap_or_else(|| panic!("DigMessage rejected a real Chia frame ({opcode})"));

                assert_eq!(decoded.msg_type, opcode);
                assert_eq!(decoded.id, id);
                assert_eq!(decoded.data.as_ref(), payload.as_slice());
            }
        }
    }
}

/// Chia's decoder rejects opcode 218, and accepts the same frame under an opcode of its own: the
/// rejection is about the opcode, not about the framing.
#[test]
fn the_pre_migration_decoder_rejects_218_but_accepts_the_same_frame_with_a_chia_opcode() {
    let payload = Bytes::new(b"registration".to_vec());

    let register_peer = DigMessageType::RegisterPeer.to_byte();
    let dig_frame = DigMessage::new(register_peer, Some(7), payload.clone()).to_bytes();
    assert!(
        Message::from_bytes(&dig_frame).is_err(),
        "chia_protocol accepted opcode 218"
    );

    let chia_opcode = *ProtocolMessageTypes::RequestPeers
        .to_bytes()
        .expect("encode")
        .first()
        .expect("one byte");
    let chia_frame = DigMessage::new(chia_opcode, Some(7), payload).to_bytes();
    assert!(
        Message::from_bytes(&chia_frame).is_ok(),
        "the control frame failed to decode, so the rejection above is about framing, not opcodes"
    );
}

#[test]
fn every_truncation_of_a_frame_is_refused() {
    for id in [None, Some(ASYMMETRIC_ID)] {
        let wire = DigMessage::new(220, id, Bytes::new(vec![1, 2, 3])).to_bytes();
        for kept in 0..wire.len() {
            assert!(DigMessage::from_bytes(&wire[..kept]).is_none());
            assert!(DigMessage::from_bytes_owned(wire[..kept].to_vec()).is_none());
        }
    }
}

#[test]
fn trailing_bytes_and_odd_id_tags_are_tolerated() {
    let mut wire = DigMessage::new(220, Some(5), Bytes::new(vec![1, 2, 3])).to_bytes();
    wire.push(0xee);
    wire[1] = 0x7f;
    let decoded = DigMessage::from_bytes_owned(wire).expect("decode");
    assert_eq!(decoded, DigMessage::new(220, Some(5), Bytes::new(vec![1, 2, 3])));
}

/// The largest payload decodes, and a frame with one byte more does not, whatever its bytes.
#[test]
fn the_payload_bound_is_pinned_from_both_sides() {
    let max = DigMessage::MAX_MESSAGE_SIZE;
    assert_eq!(max, 16 * 1024 * 1024);
    let at_bound = DigMessage::new(220, None, Bytes::new(vec![0u8; max]));
    assert_eq!(
        DigMessage::from_bytes(&at_bound.to_bytes()).expect("decode").data.len(),
        max
    );
    let over_bound = DigMessage::new(220, None, Bytes::new(vec![0u8; max + 1]));
    assert!(DigMessage::from_bytes(&over_bound.to_bytes()).is_none());
    assert!(DigMessage::from_bytes(&[220, 0, 0xff, 0xff, 0xff, 0xff]).is_none());
}

#[test]
fn the_two_namespaces_meet_at_200() {
    let chia = DigMessage::new(199, None, Bytes::default());
    assert!(chia.is_chia_standard() && !chia.is_dig_extension());
    let dig = DigMessage::new(200, None, Bytes::default());
    assert!(dig.is_dig_extension() && !dig.is_chia_standard());
}
