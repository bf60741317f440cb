use chia_protocol::ProtocolMessageTypes;
use chia_sdk_client::{RateLimit as UpstreamLimit, RateLimits as UpstreamLimits, V2_RATE_LIMITS};
use chia_traits::Streamable;
use dig_peer_protocol::rate_limit::time_of_reading;
use dig_peer_protocol::{
    Admission, Bytes, DigMessage, Direction, LimitFactor, OpcodeRateLimiter, OpcodeRateLimits,
    RateLimit, RateLimits, DIG_MESSAGE,
};

fn message(opcode: u8, payload_len: usize) -> DigMessage {
    DigMessage::new(opcode, None, Bytes::new(vec![0u8; payload_len]))
}

fn plain_limit(limit: &UpstreamLimit) -> RateLimit {
    RateLimit::new(
        limit.frequency as u64,
        limit.max_size as u64,
        limit.max_total_size.map(|total| total as u64),
    )
}

/// An upstream table with its whole numbers as integers.
fn plain(limits: &UpstreamLimits) -> RateLimits {
    RateLimits {
        default_settings: plain_limit(&limits.default_settings),
        non_tx_frequency: limits.non_tx_frequency as u64,
        non_tx_max_total_size: limits.non_tx_max_total_size as u64,
        tx: limits.tx.iter().map(|(t, limit)| (*t, plain_limit(limit))).collect(),
        other: limits.other.iter().map(|(t, limit)| (*t, plain_limit(limit))).collect(),
    }
}

fn handshake_opcode() -> u8 {
    *ProtocolMessageTypes::Handshake
        .to_bytes()
        .expect("encode")
        .first()
        .expect("one byte")
}

fn new_peak_opcode() -> u8 {
    *ProtocolMessageTypes::NewPeak
        .to_bytes()
        .expect("encode")
        .first()
        .expect("one byte")
}

/// The upstream table with `Handshake` retuned to admit only two messages per window, where
/// upstream admits five.
fn handshake_capped_at_two() -> RateLimits {
    let mut limits = V2_RATE_LIMITS.clone();
    limits.other.insert(
        ProtocolMessageTypes::Handshake,
        UpstreamLimit::new(2.0, 10.0 * 1024.0, None),
    );
    plain(&limits)
}

fn admit_handshakes(limits: OpcodeRateLimits, count: usize) -> Vec<Admission> {
    let mut limiter = OpcodeRateLimiter::new(Direction::Outbound, 60, LimitFactor::nominal(), limits);
    (0..count)
        .map(|_| limiter.try_admit(&message(handshake_opcode(), 16)))
        .collect()
}

/// One byte over the table's own size, so the refusal is permanent.
const OVERSIZED_HANDSHAKE: usize = 10 * 1024 + 1;

fn flood_then_probe(direction: Direction) -> Admission {
    let mut limiter = OpcodeRateLimiter::new(
        direction,
        60,
        LimitFactor::nominal(),
        OpcodeRateLimits::from(&handshake_capped_at_two()),
    );

    for i in 0..2 {
        assert_eq!(
            limiter.try_admit(&message(handshake_opcode(), OVERSIZED_HANDSHAKE)),
            Admission::Unsendable,
            "flood frame {i} was not refused on size"
        );
    }

    limiter.try_admit(&message(handshake_opcode(), 16))
}

#[test]
fn an_inbound_refusal_is_charged_against_the_window() {
    assert_eq!(
        flood_then_probe(Direction::Inbound),
        Admission::Deferred,
        "a legal inbound frame was admitted after two refused frames"
    );
}

#[test]
fn an_outbound_refusal_is_not_charged_against_the_window() {
    assert_eq!(
        flood_then_probe(Direction::Outbound),
        Admission::Admitted,
        "a refused outbound message was charged -- a backing-off caller is now penalised"
    );
}

/// The probe is another opcode, whose own counters were never touched.
#[test]
fn an_inbound_refusal_is_charged_against_the_non_tx_count_aggregate() {
    let probe = |direction| {
        let mut table = V2_RATE_LIMITS.clone();
        table.non_tx_frequency = 2.0;
        table.other.insert(
            ProtocolMessageTypes::Handshake,
            UpstreamLimit::new(100.0, 10.0 * 1024.0, None),
        );
        table.other.insert(
            ProtocolMessageTypes::NewPeak,
            UpstreamLimit::new(100.0, 10.0 * 1024.0, None),
        );

        let mut limiter = OpcodeRateLimiter::new(
            direction,
            60,
            LimitFactor::nominal(),
            OpcodeRateLimits::from(&plain(&table)),
        );
        for _ in 0..2 {
            assert_eq!(
                limiter.try_admit(&message(handshake_opcode(), OVERSIZED_HANDSHAKE)),
                Admission::Unsendable
            );
        }
        limiter.try_admit(&message(new_peak_opcode(), 16))
    };

    assert_eq!(
        probe(Direction::Inbound),
        Admission::Deferred,
        "the aggregate count was not charged"
    );
    assert_eq!(
        probe(Direction::Outbound),
        Admission::Admitted,
        "the fixture cannot distinguish the directions"
    );
}

/// The count is left wide open, so that only the aggregate size can refuse the probe.
#[test]
fn an_inbound_refusal_is_charged_against_the_non_tx_size_aggregate() {
    let probe = |direction| {
        let mut table = V2_RATE_LIMITS.clone();
        table.non_tx_frequency = 1000.0;
        table.non_tx_max_total_size = 15.0 * 1024.0;
        table.other.insert(
            ProtocolMessageTypes::Handshake,
            UpstreamLimit::new(100.0, 10.0 * 1024.0, None),
        );
        table.other.insert(
            ProtocolMessageTypes::NewPeak,
            UpstreamLimit::new(100.0, 10.0 * 1024.0, None),
        );

        let mut limiter = OpcodeRateLimiter::new(
            direction,
            60,
            LimitFactor::nominal(),
            OpcodeRateLimits::from(&plain(&table)),
        );
        for _ in 0..2 {
            assert_eq!(
                limiter.try_admit(&message(handshake_opcode(), OVERSIZED_HANDSHAKE)),
                Admission::Unsendable
            );
        }
        limiter.try_admit(&message(new_peak_opcode(), 16))
    };

    assert_eq!(
        probe(Direction::Inbound),
        Admission::Deferred,
        "the aggregate size was not charged"
    );
    assert_eq!(
        probe(Direction::Outbound),
        Admission::Admitted,
        "the fixture cannot distinguish the directions"
    );
}

#[test]
fn chia_opcodes_keep_their_upstream_limits() {
    let limits = OpcodeRateLimits::default();
    let handshake = *ProtocolMessageTypes::Handshake
        .to_bytes()
        .expect("encode")
        .first()
        .expect("one byte");

    let upstream = V2_RATE_LIMITS
        .other
        .get(&ProtocolMessageTypes::Handshake)
        .expect("upstream defines a handshake limit");
    let ours = limits
        .other()
        .get(&handshake)
        .expect("re-keyed table kept the handshake limit");

    assert_eq!(ours.frequency as f64, upstream.frequency);
    assert_eq!(ours.max_size as f64, upstream.max_size);
}

#[test]
fn every_upstream_opcode_survives_the_rekey_with_its_limits() {
    let ours = OpcodeRateLimits::default();
    let upstream = &*V2_RATE_LIMITS;

    for (label, upstream_map, our_map) in [
        ("tx", &upstream.tx, ours.tx()),
        ("other", &upstream.other, ours.other()),
    ] {
        assert_eq!(
            our_map.len(),
            upstream_map.len(),
            "{label}: re-key changed the entry count, so an opcode was dropped or collided",
        );
        assert!(
            !upstream_map.is_empty(),
            "{label}: upstream table is empty, so this test proves nothing",
        );

        for (msg_type, expected) in upstream_map.iter() {
            let opcode = *msg_type
                .to_bytes()
                .expect("ProtocolMessageTypes encodes")
                .first()
                .expect("one byte");
            let got = our_map.get(&opcode).unwrap_or_else(|| {
                panic!("{label}: {msg_type:?} (opcode {opcode}) missing after re-key")
            });
            assert_eq!(got.frequency as f64, expected.frequency, "{label}: {msg_type:?}");
            assert_eq!(got.max_size as f64, expected.max_size, "{label}: {msg_type:?}");
            assert_eq!(
                got.max_total_size.map(|total| total as f64),
                expected.max_total_size,
                "{label}: {msg_type:?}"
            );
        }
    }
}

#[test]
fn a_caller_supplied_table_governs_the_limiter() {
    let verdicts = admit_handshakes(OpcodeRateLimits::from(&handshake_capped_at_two()), 3);

    assert_eq!(
        verdicts,
        vec![
            Admission::Admitted,
            Admission::Admitted,
            Admission::Deferred
        ],
        "the custom frequency of 2 did not govern"
    );
}

#[test]
fn default_still_derives_from_the_upstream_table() {
    let via_default = admit_handshakes(OpcodeRateLimits::default(), 3);
    let via_upstream = admit_handshakes(OpcodeRateLimits::from(&plain(&V2_RATE_LIMITS)), 3);

    assert_eq!(
        via_default, via_upstream,
        "Default no longer agrees with the table it is documented to derive from"
    );
    assert_eq!(
        via_default[2],
        Admission::Admitted,
        "upstream admits a third handshake"
    );
}

#[test]
fn dig_opcodes_fall_back_to_the_default_budget() {
    let mut limiter = OpcodeRateLimiter::new(
        Direction::Outbound,
        60,
        LimitFactor::nominal(),
        OpcodeRateLimits::default(),
    );
    assert!(limiter.allow(&message(DIG_MESSAGE, 16)));
}

#[test]
fn frequency_budget_admits_up_to_the_bound_and_refuses_past_it() {
    let limits = OpcodeRateLimits::default();
    let allowance = limits.default_settings().frequency as usize;
    let mut limiter = OpcodeRateLimiter::new(Direction::Outbound, 60, LimitFactor::nominal(), limits);

    for i in 0..allowance {
        assert!(
            limiter.allow(&message(DIG_MESSAGE, 1)),
            "message {i} refused below the bound"
        );
    }
    assert!(
        !limiter.allow(&message(DIG_MESSAGE, 1)),
        "one message over the bound was admitted"
    );
}

#[test]
fn a_deferrable_refusal_is_distinguished_from_a_permanent_one() {
    let limits = OpcodeRateLimits::default();
    let allowance = limits.default_settings().frequency as usize;
    let max_size = limits.default_settings().max_size as usize;

    let mut exhausted = OpcodeRateLimiter::new(Direction::Outbound, 60, LimitFactor::nominal(), limits);
    for _ in 0..allowance {
        assert_eq!(
            exhausted.try_admit(&message(DIG_MESSAGE, 1)),
            Admission::Admitted
        );
    }
    assert_eq!(
        exhausted.try_admit(&message(DIG_MESSAGE, 1)),
        Admission::Deferred,
        "an exhausted frequency budget resets on the next window, so waiting can help"
    );

    let mut fresh = OpcodeRateLimiter::new(
        Direction::Outbound,
        60,
        LimitFactor::nominal(),
        OpcodeRateLimits::default(),
    );
    assert_eq!(
        fresh.try_admit(&message(DIG_MESSAGE, max_size + 1)),
        Admission::Unsendable,
        "an oversized message is refused identically in every window"
    );
}

#[test]
fn size_cap_is_pinned_from_both_sides() {
    let max_size = OpcodeRateLimits::default().default_settings().max_size as usize;

    let mut at_bound = OpcodeRateLimiter::new(
        Direction::Outbound,
        60,
        LimitFactor::nominal(),
        OpcodeRateLimits::default(),
    );
    assert!(at_bound.allow(&message(DIG_MESSAGE, max_size)));

    let mut over_bound = OpcodeRateLimiter::new(
        Direction::Outbound,
        60,
        LimitFactor::nominal(),
        OpcodeRateLimits::default(),
    );
    assert!(!over_bound.allow(&message(DIG_MESSAGE, max_size + 1)));
}

/// The table at absolute values, which no version of the upstream enum can shift.
#[test]
fn the_rekeyed_table_pins_upstream_limits_at_absolute_values() {
    let limits = OpcodeRateLimits::default();

    let handshake = limits
        .other()
        .get(&1)
        .expect("opcode 1 (Handshake) kept its entry");
    assert_eq!(handshake.frequency, 5, "Handshake frequency");
    assert_eq!(handshake.max_size, 10 * 1024, "Handshake max_size");

    let tx_ack = limits
        .tx()
        .get(&49)
        .expect("opcode 49 (TransactionAck) kept its tx entry");
    assert_eq!(tx_ack.frequency, 5000, "TransactionAck frequency");
    assert_eq!(tx_ack.max_size, 2048, "TransactionAck max_size");

    let new_tx = limits
        .tx()
        .get(&21)
        .expect("opcode 21 (NewTransaction) kept its tx entry");
    assert_eq!(new_tx.frequency, 5000, "NewTransaction frequency");
    assert_eq!(new_tx.max_size, 100, "NewTransaction max_size");

    assert_eq!(limits.non_tx_frequency(), 1000);
    assert_eq!(limits.non_tx_max_total_size(), 100 * 1024 * 1024);
    assert_eq!(limits.default_settings().frequency, 100);
    assert_eq!(limits.default_settings().max_size, 1024 * 1024);
    assert_eq!(limits.default_settings().max_total_size, Some(100 * 1024 * 1024));
}

#[test]
fn falling_back_to_the_default_would_be_a_detectable_loosening() {
    let limits = OpcodeRateLimits::default();
    let handshake = limits
        .other()
        .get(&1)
        .expect("opcode 1 (Handshake) kept its entry");

    assert!(
        handshake.frequency < limits.default_settings().frequency,
        "Handshake ({}) is not tighter than default ({})",
        handshake.frequency,
        limits.default_settings().frequency
    );
    assert!(
        handshake.max_size < limits.default_settings().max_size,
        "Handshake max_size is not tighter than default"
    );
}

#[test]
fn the_rekeyed_table_retains_the_bulk_of_the_upstream_entries() {
    let limits = OpcodeRateLimits::default();
    assert!(
        limits.other().len() >= 30,
        "other map holds only {} entries -- the re-key lost most of the table",
        limits.other().len()
    );
    assert!(
        limits.tx().len() >= 5,
        "tx map holds only {} entries -- the re-key lost most of the table",
        limits.tx().len()
    );
    for opcode in limits.other().keys().chain(limits.tx().keys()) {
        assert!(*opcode < 200, "opcode {opcode} is outside the chia band");
    }
}

/// A small table: three messages of ten bytes, thirty bytes in all, one counted opcode.
fn small_table() -> RateLimits {
    RateLimits {
        default_settings: RateLimit::new(3, 10, None),
        non_tx_frequency: 2,
        non_tx_max_total_size: 15,
        tx: vec![(ProtocolMessageTypes::NewTransaction, RateLimit::new(5, 8, Some(20)))],
        other: vec![(ProtocolMessageTypes::Handshake, RateLimit::new(5, 10, None))],
    }
}

fn small_limiter(direction: Direction, factor: LimitFactor) -> OpcodeRateLimiter {
    OpcodeRateLimiter::new_at(1_000, direction, 60, factor, OpcodeRateLimits::from(&small_table()))
}

#[test]
fn a_deferred_message_passes_in_the_next_window() {
    let mut limiter = small_limiter(Direction::Outbound, LimitFactor::nominal());
    for _ in 0..3 {
        assert_eq!(limiter.try_admit_at(1_000, &message(220, 1)), Admission::Admitted);
    }
    assert_eq!(limiter.try_admit_at(1_019, &message(220, 1)), Admission::Deferred);
    assert_eq!(limiter.try_admit_at(1_020, &message(220, 1)), Admission::Admitted);
}

#[test]
fn an_unsendable_message_is_refused_in_every_window() {
    let mut limiter = small_limiter(Direction::Outbound, LimitFactor::nominal());
    for now in [1_000, 1_020, 9_999] {
        assert_eq!(limiter.try_admit_at(now, &message(220, 11)), Admission::Unsendable);
    }
    assert_eq!(limiter.try_admit_at(9_999, &message(220, 10)), Admission::Admitted);
}

#[test]
fn the_total_size_binds_before_the_frequency() {
    let mut limiter = small_limiter(Direction::Outbound, LimitFactor::nominal());
    assert_eq!(limiter.try_admit_at(1_000, &message(21, 8)), Admission::Admitted);
    assert_eq!(limiter.try_admit_at(1_000, &message(21, 8)), Admission::Admitted);
    assert_eq!(limiter.try_admit_at(1_000, &message(21, 5)), Admission::Deferred);
    assert_eq!(limiter.try_admit_at(1_000, &message(21, 4)), Admission::Admitted);
}

#[test]
fn the_aggregate_binds_counted_opcodes_only() {
    let mut limiter = small_limiter(Direction::Outbound, LimitFactor::nominal());
    assert_eq!(limiter.try_admit_at(1_000, &message(1, 10)), Admission::Admitted);
    assert_eq!(limiter.try_admit_at(1_000, &message(1, 6)), Admission::Deferred);
    assert_eq!(limiter.try_admit_at(1_000, &message(1, 5)), Admission::Admitted);
    assert_eq!(limiter.try_admit_at(1_000, &message(1, 0)), Admission::Deferred);
    assert_eq!(limiter.try_admit_at(1_000, &message(21, 8)), Admission::Admitted);
    assert_eq!(limiter.try_admit_at(1_000, &message(220, 8)), Admission::Admitted);
}

/// Three fifths of three messages is one; a tenth of them is none.
#[test]
fn the_factor_scales_the_budgets_but_not_the_size_of_one_message() {
    let three_fifths = LimitFactor::new(3, 5).expect("a ratio");
    let mut limiter = small_limiter(Direction::Outbound, three_fifths);
    assert_eq!(limiter.try_admit_at(1_000, &message(220, 10)), Admission::Admitted);
    assert_eq!(limiter.try_admit_at(1_000, &message(220, 0)), Admission::Deferred);

    let tenth = LimitFactor::new(1, 10).expect("a ratio");
    let mut starved = small_limiter(Direction::Outbound, tenth);
    assert_eq!(starved.try_admit_at(1_000, &message(220, 0)), Admission::Unsendable);

    assert_eq!(LimitFactor::new(1, 0), None);
    assert_eq!((tenth.numerator(), tenth.denominator()), (1, 10));
}

#[test]
fn a_later_row_overrides_an_earlier_one() {
    let mut table = small_table();
    table.other.push((ProtocolMessageTypes::Handshake, RateLimit::new(1, 2, Some(3))));
    let limits = OpcodeRateLimits::from(&table);
    assert_eq!(limits.other().len(), 1);
    assert_eq!(limits.other().get(&1), Some(&RateLimit::new(1, 2, Some(3))));
}

#[test]
fn huge_budgets_do_not_overflow() {
    let table = RateLimits {
        default_settings: RateLimit::new(u64::MAX, u64::MAX, None),
        non_tx_frequency: u64::MAX,
        non_tx_max_total_size: u64::MAX,
        tx: vec![],
        other: vec![],
    };
    let factor = LimitFactor::new(u64::MAX, 1).expect("a ratio");
    let mut limiter =
        OpcodeRateLimiter::new_at(0, Direction::Inbound, 1, factor, OpcodeRateLimits::from(&table));
    assert_eq!(limiter.try_admit_at(0, &message(220, 1_000)), Admission::Admitted);
}

#[test]
fn a_clock_before_the_epoch_reads_as_zero() {
    assert_eq!(time_of_reading(Some(1_700_000_000)), 1_700_000_000);
    assert_eq!(time_of_reading(None), 0);
}

/// The aggregate is for what is not a transaction message: once inbound messages have overdrawn it,
/// a counted opcode is deferred, and a transaction message and a DIG message still pass.
#[test]
fn an_overdrawn_aggregate_does_not_refuse_a_transaction_message() {
    let mut table = V2_RATE_LIMITS.clone();
    table.non_tx_frequency = 1.0;
    let mut limiter = OpcodeRateLimiter::new(
        Direction::Inbound,
        60,
        LimitFactor::nominal(),
        OpcodeRateLimits::from(&plain(&table)),
    );
    assert_eq!(limiter.try_admit(&message(1, 16)), Admission::Admitted);
    assert_eq!(limiter.try_admit(&message(1, 16)), Admission::Deferred);
    assert_eq!(limiter.try_admit(&message(21, 16)), Admission::Admitted);
    assert_eq!(limiter.try_admit(&message(DIG_MESSAGE, 16)), Admission::Admitted);
    assert_eq!(limiter.try_admit(&message(new_peak_opcode(), 16)), Admission::Deferred);
}

/// A refused inbound message is charged, so no more is admitted than the budget holds.
#[test]
fn what_is_admitted_inbound_stays_within_the_budget() {
    let mut limiter = small_limiter(Direction::Inbound, LimitFactor::nominal());
    let verdicts: Vec<Admission> = [1, 11, 1, 1, 1]
        .iter()
        .map(|len| limiter.try_admit_at(1_000, &message(220, *len)))
        .collect();
    assert_eq!(
        verdicts,
        vec![
            Admission::Admitted,
            Admission::Unsendable,
            Admission::Admitted,
            Admission::Deferred,
            Admission::Deferred,
        ]
    );
}

#[test]
fn no_row_of_a_derived_table_is_keyed_in_the_dig_band() {
    let table = RateLimits {
        default_settings: RateLimit::new(1, 1, None),
        non_tx_frequency: 1,
        non_tx_max_total_size: 1,
        tx: (0..=u8::MAX)
            .filter_map(|byte| ProtocolMessageTypes::from_bytes(&[byte]).ok())
            .map(|msg_type| (msg_type, RateLimit::new(1, 1, None)))
            .collect(),
        other: vec![],
    };
    let limits = OpcodeRateLimits::from(&table);
    assert_eq!(limits.tx().len(), table.tx.len());
    assert!(limits.tx().keys().all(|opcode| *opcode < 200));
}

#[test]
fn rolling_into_another_window_clears_every_counter() {
    let mut limiter = small_limiter(Direction::Inbound, LimitFactor::nominal());
    for opcode in [1, 1, 1, 21, 21, 21, 220, 220, 220, 220] {
        limiter.try_admit_at(1_000, &message(opcode, 8));
    }
    for opcode in [1, 21, 220] {
        assert_eq!(limiter.try_admit_at(1_000, &message(opcode, 8)), Admission::Deferred);
    }
    limiter.roll_window(1_019);
    assert_eq!(limiter.try_admit_at(1_019, &message(220, 8)), Admission::Deferred);
    limiter.roll_window(1_020);
    for opcode in [1, 21, 220] {
        assert_eq!(limiter.try_admit_at(1_020, &message(opcode, 8)), Admission::Admitted);
    }
}
