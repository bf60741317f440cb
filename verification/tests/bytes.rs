use chia_sha2::Sha256;
use dig_peer_protocol::streamable::StreamError;
use dig_peer_protocol::Bytes;

/// The encoding is pinned as an absolute value: a four-byte big-endian length, then the raw
/// payload.
#[test]
fn streams_a_u32_big_endian_length_prefix_then_the_raw_payload() {
    let bytes = Bytes::new(vec![0xab, 0xcd, 0xef]);
    assert_eq!(
        bytes.to_bytes().expect("encode"),
        vec![0x00, 0x00, 0x00, 0x03, 0xab, 0xcd, 0xef]
    );
}

/// 300 needs two bytes; the prefix must still occupy four.
#[test]
fn a_length_beyond_one_byte_still_occupies_four_prefix_bytes() {
    let encoded = Bytes::new(vec![7u8; 300]).to_bytes().expect("encode");
    assert_eq!(&encoded[..4], &[0x00, 0x00, 0x01, 0x2c]);
    assert_eq!(encoded.len(), 4 + 300);
}

#[test]
fn empty_payload_streams_as_a_bare_zero_length() {
    assert_eq!(
        Bytes::default().to_bytes().expect("encode"),
        vec![0x00, 0x00, 0x00, 0x00]
    );
}

#[test]
fn round_trips_through_parse() {
    let original = Bytes::new((0..300).map(|i| (i % 251) as u8).collect());
    let decoded = Bytes::from_bytes(&original.to_bytes().expect("encode")).expect("decode");
    assert_eq!(decoded, original);
}

/// A length prefix that promises more bytes than the buffer holds is an error, not a short read.
#[test]
fn a_length_prefix_longer_than_the_buffer_is_rejected() {
    let truncated = [0x00, 0x00, 0x00, 0x08, 0xab, 0xcd];
    assert!(Bytes::from_bytes(&truncated).is_err());
}

/// The largest length must not overflow the arithmetic on any pointer width.
#[test]
fn a_maximal_length_prefix_errors_rather_than_overflowing() {
    let hostile = [0xff, 0xff, 0xff, 0xff, 0x00];
    assert!(Bytes::from_bytes(&hostile).is_err());
}

#[test]
fn renders_as_hex_in_both_display_and_debug() {
    let bytes = Bytes::new(vec![0x00, 0x0f, 0xff]);
    assert_eq!(bytes.to_string(), "000fff");
    assert_eq!(format!("{bytes:?}"), "Bytes(000fff)");
}

#[test]
fn converts_to_and_from_the_shapes_callers_actually_hold() {
    let from_vec: Bytes = vec![1u8, 2, 3].into();
    let from_slice: Bytes = [1u8, 2, 3].as_slice().into();
    assert_eq!(from_vec, from_slice);
    assert_eq!(from_vec.as_ref(), &[1, 2, 3]);
    assert_eq!(&*from_slice, &[1, 2, 3]);
    assert_eq!(Vec::<u8>::from(from_vec.clone()), vec![1, 2, 3]);
    assert_eq!(from_vec.into_inner(), vec![1, 2, 3]);
}

#[test]
fn reports_its_own_length_and_emptiness() {
    assert!(Bytes::default().is_empty());
    assert_eq!(Bytes::default().len(), 0);
    assert!(!Bytes::new(vec![1]).is_empty());
    assert_eq!(Bytes::new(vec![1, 2]).len(), 2);
}

#[test]
fn each_decoding_error_has_its_input() {
    assert_eq!(Bytes::from_bytes(&[0, 0, 0]), Err(StreamError::EndOfBuffer));
    assert_eq!(Bytes::from_bytes(&[0, 0, 0, 2, 9]), Err(StreamError::EndOfBuffer));
    assert_eq!(
        Bytes::from_bytes(&[0, 0, 0, 1, 9, 9]),
        Err(StreamError::InputTooLarge)
    );
}

#[test]
fn a_payload_is_parsed_out_of_the_middle_of_a_buffer() {
    let input = [0xaa, 0, 0, 0, 2, 7, 8, 0xbb];
    let (payload, next) = Bytes::parse(&input, 1).expect("decode");
    assert_eq!(payload.as_ref(), &[7, 8]);
    assert_eq!(next, 7);
    assert_eq!(Bytes::parse(&input, 8), Err(StreamError::EndOfBuffer));
}

#[test]
fn equality_looks_at_every_byte() {
    assert_ne!(Bytes::new(vec![1, 2, 3]), Bytes::new(vec![1, 2, 4]));
    assert_ne!(Bytes::new(vec![1, 2, 3]), Bytes::new(vec![1, 2]));
}

/// The digest of "abc" behind its length prefix, by way of a digest that is fed both.
#[test]
fn the_digest_absorbs_the_length_prefix_and_the_payload() {
    let payload = Bytes::new(b"abc".to_vec());
    let mut digest = Sha256::new();
    payload.update_digest(&mut digest);

    let mut expected = Sha256::new();
    expected.update([0u8, 0, 0, 3, 0x61, 0x62, 0x63]);
    assert_eq!(digest.finalize(), expected.finalize());
}

/// The digest of the four bytes of an empty payload, as an absolute value.
#[test]
fn the_hash_of_an_empty_payload_is_that_of_four_zero_bytes() {
    let rendered: String = Bytes::default().hash().iter().map(|b| format!("{b:02x}")).collect();
    assert_eq!(
        rendered,
        "df3f619804a92fdb4057192dc43dd748ea778adc52bc498ce80524c014b81119"
    );
}

#[test]
fn an_empty_payload_renders_as_nothing() {
    assert_eq!(Bytes::default().to_string(), "");
    assert_eq!(format!("{:?}", Bytes::default()), "Bytes()");
}
