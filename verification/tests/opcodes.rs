use chia_protocol::ProtocolMessageTypes;
use chia_traits::Streamable;
use dig_peer_protocol::dig_message_type::WireValueError;
use dig_peer_protocol::opcodes::{
    DISTRIBUTOR_ANNOUNCE, PROFILE_BODY, PROFILE_BODY_REQUEST, PROFILE_ROOT_ANNOUNCE,
};
use dig_peer_protocol::{
    is_dig_opcode, DigMessage, DigMessageType, UnknownDigMessageType, ALL_DIG_OPCODES, DIG_BAND_START,
    DIG_MESSAGE, FREE_BAND_START, HOLDINGS_ANNOUNCE, STORE_MELTED,
};

/// No DIG opcode collides with one that Chia's decoder accepts.
#[test]
fn dig_opcodes_are_disjoint_from_the_chia_namespace() {
    for opcode in ALL_DIG_OPCODES {
        assert!(
            ProtocolMessageTypes::from_bytes(&[opcode]).is_err(),
            "opcode {opcode} is claimed by both DIG and Chia"
        );
    }
}

#[test]
fn the_assigned_band_is_contiguous_from_200() {
    let expected: Vec<u8> = (DIG_BAND_START..=DISTRIBUTOR_ANNOUNCE).collect();
    assert_eq!(ALL_DIG_OPCODES.to_vec(), expected);
}

#[test]
fn free_band_constants_are_pinned() {
    assert_eq!(FREE_BAND_START, 220);
    assert_eq!(DIG_MESSAGE, 220);
    assert_eq!(STORE_MELTED, 221);
    assert_eq!(HOLDINGS_ANNOUNCE, 222);
    assert_eq!(PROFILE_ROOT_ANNOUNCE, 223);
    assert_eq!(PROFILE_BODY_REQUEST, 224);
    assert_eq!(PROFILE_BODY, 225);
    assert_eq!(DISTRIBUTOR_ANNOUNCE, 226);
}

#[test]
fn distributor_announce_is_pinned_to_226() {
    assert_eq!(DISTRIBUTOR_ANNOUNCE, 226);
}

#[test]
fn all_dig_opcodes_contains_distributor_announce() {
    assert!(ALL_DIG_OPCODES.contains(&DISTRIBUTOR_ANNOUNCE));
}

#[test]
fn all_dig_opcodes_is_deduped_and_strictly_ascending() {
    for window in ALL_DIG_OPCODES.windows(2) {
        assert!(
            window[0] < window[1],
            "not strictly ascending at {window:?}"
        );
    }
}

#[test]
fn all_dig_opcodes_has_27_entries() {
    assert_eq!(ALL_DIG_OPCODES.len(), 27);
}

#[test]
fn is_dig_opcode_recognizes_distributor_announce() {
    assert!(is_dig_opcode(DISTRIBUTOR_ANNOUNCE));
}

#[test]
fn the_profile_sync_triple_is_assigned_together() {
    let start = ALL_DIG_OPCODES
        .iter()
        .position(|&op| op == PROFILE_ROOT_ANNOUNCE)
        .expect("PROFILE_ROOT_ANNOUNCE must be present");
    let triple = &ALL_DIG_OPCODES[start..start + 3];
    assert_eq!(
        triple,
        [PROFILE_ROOT_ANNOUNCE, PROFILE_BODY_REQUEST, PROFILE_BODY]
    );
}

/// The band predicate is pinned from both sides: 199 is Chia's, 200 is DIG's.
#[test]
fn band_predicate_is_pinned_from_both_sides() {
    assert!(!is_dig_opcode(DIG_BAND_START - 1));
    assert!(is_dig_opcode(DIG_BAND_START));
    assert!(is_dig_opcode(u8::MAX));
}

#[test]
fn dig_message_opcode_frames_and_round_trips() {
    let msg = DigMessage::new(DIG_MESSAGE, Some(9), vec![1, 2, 3].into());
    let back = DigMessage::from_bytes(&msg.to_bytes()).expect("round-trip");
    assert_eq!(back.msg_type, 220);
    assert_eq!(back.msg_type, DIG_MESSAGE);
    assert_eq!(back.data.as_ref(), &[1, 2, 3]);
}

#[test]
fn dig_message_opcode_is_not_a_consensus_type() {
    assert!(DigMessageType::try_from(DIG_MESSAGE).is_err());
}

#[test]
fn consensus_opcodes_are_exactly_the_twenty_from_200() {
    for byte in 0..=u8::MAX {
        match DigMessageType::try_from(byte) {
            Ok(opcode) => {
                assert!((200..=219).contains(&byte));
                assert_eq!(opcode.to_byte(), byte);
            }
            Err(unknown) => {
                assert!(!(200..=219).contains(&byte));
                assert_eq!(unknown, UnknownDigMessageType(byte));
            }
        }
    }
    assert_eq!(DigMessageType::ALL.len(), 20);
    assert_eq!(DigMessageType::MAX_ASSIGNED, 219);
    for (i, opcode) in DigMessageType::ALL.iter().enumerate() {
        assert_eq!(opcode.to_byte() as usize, 200 + i);
    }
}

#[test]
fn consensus_opcodes_render_as_name_and_value() {
    assert_eq!(DigMessageType::RegisterPeer.to_string(), "RegisterPeer(218)");
    assert_eq!(DigMessageType::PlumtreeGraft.to_string(), "PlumtreeGraft(216)");
    assert_eq!(
        UnknownDigMessageType(7).to_string(),
        "unknown DigMessageType discriminant: 7"
    );
}

#[test]
fn wire_values_are_narrowed_before_they_are_looked_up() {
    assert_eq!(DigMessageType::from_unsigned(216), Ok(DigMessageType::PlumtreeGraft));
    assert_eq!(DigMessageType::from_signed(200), Ok(DigMessageType::NewAttestation));
    assert_eq!(DigMessageType::from_unsigned(256), Err(WireValueError::OutOfRange));
    assert_eq!(DigMessageType::from_signed(-1), Err(WireValueError::OutOfRange));
    assert_eq!(
        DigMessageType::from_unsigned(220),
        Err(WireValueError::Unknown(UnknownDigMessageType(220)))
    );
    assert_eq!(
        DigMessageType::from_signed(199),
        Err(WireValueError::Unknown(UnknownDigMessageType(199)))
    );
    assert_eq!(WireValueError::OutOfRange.to_string(), "out of u8 range");
    assert_eq!(
        WireValueError::Unknown(UnknownDigMessageType(199)).to_string(),
        "unknown DigMessageType discriminant: 199"
    );
}
