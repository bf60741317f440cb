use chia_sha2::Sha256;
use dig_peer_protocol::streamable::StreamError;
use dig_peer_protocol::{NodeType, UnknownNodeType};

#[test]
fn discriminants_are_frozen_at_their_wire_values() {
    assert_eq!(NodeType::FullNode.to_byte(), 1);
    assert_eq!(NodeType::Harvester.to_byte(), 2);
    assert_eq!(NodeType::Farmer.to_byte(), 3);
    assert_eq!(NodeType::Timelord.to_byte(), 4);
    assert_eq!(NodeType::Introducer.to_byte(), 5);
    assert_eq!(NodeType::Wallet.to_byte(), 6);
    assert_eq!(NodeType::DataLayer.to_byte(), 7);
}

#[test]
fn streams_as_exactly_one_byte_for_every_variant() {
    for role in NodeType::ALL {
        assert_eq!(role.to_bytes().expect("encode"), vec![role.to_byte()]);
    }
}

#[test]
fn every_variant_round_trips_through_parse() {
    for role in NodeType::ALL {
        let decoded = NodeType::from_bytes(&role.to_bytes().expect("encode")).expect("decode");
        assert_eq!(decoded, role);
    }
}

/// Every byte that is not a discriminant is refused, 0 among them.
#[test]
fn a_byte_naming_no_role_is_refused_rather_than_defaulted() {
    for byte in 0..=u8::MAX {
        let is_known = (1..=7).contains(&byte);
        assert_eq!(
            NodeType::from_byte(byte).is_some(),
            is_known,
            "byte {byte} disagreed with the known-role set"
        );
        assert_eq!(NodeType::from_bytes(&[byte]).is_ok(), is_known);
    }
}

#[test]
fn try_from_reports_the_offending_byte() {
    assert_eq!(NodeType::try_from(5), Ok(NodeType::Introducer));
    assert_eq!(NodeType::try_from(0), Err(UnknownNodeType(0)));
    assert_eq!(NodeType::try_from(8), Err(UnknownNodeType(8)));
    assert_eq!(UnknownNodeType(9).to_string(), "9 is not a known node type");
}

#[test]
fn all_covers_the_whole_enum() {
    assert_eq!(NodeType::ALL.len(), 7);
    let mut bytes: Vec<u8> = NodeType::ALL.iter().map(|r| r.to_byte()).collect();
    bytes.sort_unstable();
    bytes.dedup();
    assert_eq!(bytes, vec![1, 2, 3, 4, 5, 6, 7]);
}

#[test]
fn each_role_decoding_error_has_its_input() {
    assert_eq!(NodeType::from_bytes(&[]), Err(StreamError::EndOfBuffer));
    assert_eq!(NodeType::from_bytes(&[8]), Err(StreamError::InvalidEnum));
    assert_eq!(NodeType::from_bytes(&[1, 1]), Err(StreamError::InputTooLarge));
    assert_eq!(NodeType::parse(&[0, 3], 1), Ok((NodeType::Farmer, 2)));
}

#[test]
fn numbers_of_three_digits_are_rendered_whole() {
    assert_eq!(UnknownNodeType(105).to_string(), "105 is not a known node type");
    assert_eq!(UnknownNodeType(250).to_string(), "250 is not a known node type");
}

#[test]
fn the_digest_absorbs_the_byte_of_the_role() {
    let mut digest = Sha256::new();
    NodeType::Wallet.update_digest(&mut digest);
    let mut expected = Sha256::new();
    expected.update([6u8]);
    assert_eq!(digest.finalize(), expected.finalize());
}
