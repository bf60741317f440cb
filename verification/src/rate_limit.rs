//! Directional rate limiting, keyed by raw opcode.
//!
//! A limiter counts, per window of time and per opcode, the messages and their bytes, and keeps an
//! aggregate of everything that is not a transaction message. It carries no numbers of its own:
//! its table is derived from one that is keyed by Chia's message types, by re-keying each entry to
//! its wire byte. DIG opcodes are absent from such a table and fall to the default settings.

use crate::dig_message::DigMessage;
use crate::opcodes;
use chia_protocol::ProtocolMessageTypes;
use std::collections::HashMap;
use vstd::prelude::*;

verus! {

broadcast use vstd::std_specs::hash::group_hash_axioms;

// ---------------------------------------------------------------------------
// Tables
// ---------------------------------------------------------------------------

/// The budgets of one kind of message in one window.
#[derive(Debug, Clone, Copy, PartialEq, Eq)]
pub struct RateLimit {
    /// How many messages.
    pub frequency: u64,
    /// How many bytes in one message.
    pub max_size: u64,
    /// How many bytes in all; where absent, `frequency` messages of `max_size` bytes.
    pub max_total_size: Option<u64>,
}

impl RateLimit {
    /// The given budgets.
    #[must_use]
    pub fn new(frequency: u64, max_size: u64, max_total_size: Option<u64>) -> (r: Self)
        ensures
            r == (RateLimit { frequency, max_size, max_total_size }),
    {
        RateLimit { frequency, max_size, max_total_size }
    }
}

/// A limit table keyed by Chia's message types.
#[derive(Debug, Clone)]
pub struct RateLimits {
    /// The budgets of a message without an entry of its own.
    pub default_settings: RateLimit,
    /// How many messages of `other` in all.
    pub non_tx_frequency: u64,
    /// How many bytes in messages of `other` in all.
    pub non_tx_max_total_size: u64,
    /// The transaction messages.
    pub tx: Vec<(ProtocolMessageTypes, RateLimit)>,
    /// The messages that count against the aggregate.
    pub other: Vec<(ProtocolMessageTypes, RateLimit)>,
}

/// A limit table keyed by wire byte. It is only ever derived from a [`RateLimits`].
#[derive(Debug, Clone)]
pub struct OpcodeRateLimits {
    default_settings: RateLimit,
    non_tx_frequency: u64,
    non_tx_max_total_size: u64,
    tx: HashMap<u8, RateLimit>,
    other: HashMap<u8, RateLimit>,
}

/// The contents of a table.
#[verifier::ext_equal]
pub struct LimitTable {
    /// The budgets of an opcode without an entry of its own.
    pub default_settings: RateLimit,
    /// How many messages of `other` in all.
    pub non_tx_frequency: u64,
    /// How many bytes in messages of `other` in all.
    pub non_tx_max_total_size: u64,
    /// The transaction opcodes.
    pub tx: Map<u8, RateLimit>,
    /// The opcodes that count against the aggregate.
    pub other: Map<u8, RateLimit>,
}

impl View for OpcodeRateLimits {
    type V = LimitTable;

    closed spec fn view(&self) -> LimitTable {
        LimitTable {
            default_settings: self.default_settings,
            non_tx_frequency: self.non_tx_frequency,
            non_tx_max_total_size: self.non_tx_max_total_size,
            tx: self.tx@,
            other: self.other@,
        }
    }
}

/// The entries re-keyed to the first byte of their encoded message type. An entry whose type has
/// no encoding is dropped; of two entries with one byte the later counts.
pub open spec fn rekeyed(entries: Seq<(ProtocolMessageTypes, RateLimit)>) -> Map<u8, RateLimit>
    decreases entries.len(),
{
    if entries.len() == 0 {
        Map::empty()
    } else {
        let before = rekeyed(entries.drop_last());
        let encoding = opcodes::message_type_encoding(entries.last().0);
        if encoding.len() == 0 {
            before
        } else {
            before.insert(encoding[0], entries.last().1)
        }
    }
}

/// Whether no two entries are for one message type.
pub open spec fn distinct_types(entries: Seq<(ProtocolMessageTypes, RateLimit)>) -> bool {
    forall|i: int, j: int| 0 <= i < j < entries.len() ==> #[trigger] entries[i].0 != #[trigger] entries[j].0
}

/// Whether each entry has an encoding, and no two entries share their wire byte.
pub open spec fn keyed_apart(entries: Seq<(ProtocolMessageTypes, RateLimit)>) -> bool {
    &&& forall|i: int|
        0 <= i < entries.len() ==> opcodes::message_type_encoding(#[trigger] entries[i].0).len() > 0
    &&& forall|i: int, j: int|
        0 <= i < j < entries.len() ==> opcodes::message_type_encoding(#[trigger] entries[i].0)[0]
            != opcodes::message_type_encoding(#[trigger] entries[j].0)[0]
}

/// Whether `rows` holds each entry under its wire byte, and nothing else.
pub open spec fn every_row_is_kept(
    entries: Seq<(ProtocolMessageTypes, RateLimit)>,
    rows: Map<u8, RateLimit>,
) -> bool {
    &&& rows.dom().finite()
    &&& rows.len() == entries.len()
    &&& forall|i: int|
        0 <= i < entries.len() ==> rows.contains_key(opcodes::message_type_encoding(#[trigger] entries[i].0)[0])
            && rows[opcodes::message_type_encoding(entries[i].0)[0]] == entries[i].1
}

fn rekey(entries: &Vec<(ProtocolMessageTypes, RateLimit)>) -> (r: HashMap<u8, RateLimit>)
    ensures
        r@ == rekeyed(entries@),
        forall|opcode: u8| #[trigger] r@.contains_key(opcode) ==> opcode < opcodes::DIG_BAND_START,
        distinct_types(entries@) ==> every_row_is_kept(entries@, r@),
{
    let mut map: HashMap<u8, RateLimit> = HashMap::new();
    let mut i: usize = 0;
    while i < entries.len()
        invariant
            i <= entries@.len(),
            map@ == rekeyed(entries@.take(i as int)),
            forall|opcode: u8| #[trigger] map@.contains_key(opcode) ==> opcode < opcodes::DIG_BAND_START,
            forall|j: int|
                0 <= j < i ==> opcodes::message_type_encoding(#[trigger] entries@[j].0).len() == 1,
            forall|j: int, other: ProtocolMessageTypes|
                0 <= j < i && opcodes::message_type_encoding(#[trigger] entries@[j].0)
                    == #[trigger] opcodes::message_type_encoding(other) ==> other == entries@[j].0,
        decreases entries@.len() - i,
    {
        let (msg_type, limit) = &entries[i];
        let limit: RateLimit = *limit;
        proof {
            let done = entries@.take(i + 1);
            assert(done.drop_last() =~= entries@.take(i as int));
            assert(done.last() == entries@[i as int]);
        }
        match opcodes::encode_message_type(msg_type) {
            Ok(encoding) => {
                if encoding.len() > 0 {
                    map.insert(encoding[0], limit);
                }
            },
            Err(_) => {},
        }
        i = i + 1;
    }
    assert(entries@.take(i as int) =~= entries@);
    proof {
        if distinct_types(entries@) {
            assert forall|j: int, k: int| 0 <= j < k < entries@.len() implies opcodes::message_type_encoding(
                #[trigger] entries@[j].0,
            )[0] != opcodes::message_type_encoding(#[trigger] entries@[k].0)[0] by {
                let (a, b) = (
                    opcodes::message_type_encoding(entries@[j].0),
                    opcodes::message_type_encoding(entries@[k].0),
                );
                if a[0] == b[0] {
                    assert(a =~= b);
                }
            }
            every_entry_survives_the_rekey(entries@);
        }
    }
    map
}

/// The table that a source table gives.
pub open spec fn derived(limits: RateLimits) -> LimitTable {
    LimitTable {
        default_settings: limits.default_settings,
        non_tx_frequency: limits.non_tx_frequency,
        non_tx_max_total_size: limits.non_tx_max_total_size,
        tx: rekeyed(limits.tx@),
        other: rekeyed(limits.other@),
    }
}

/// Re-keys a table to wire bytes. The numbers stay those of the table: a caller chooses the
/// table, never an individual limit.
impl From<&RateLimits> for OpcodeRateLimits {
    fn from(limits: &RateLimits) -> (r: Self)
        ensures
            r@ == derived(*limits),
            r@.keyed_below_the_dig_band(),
            distinct_types(limits.tx@) ==> every_row_is_kept(limits.tx@, r@.tx),
            distinct_types(limits.other@) ==> every_row_is_kept(limits.other@, r@.other),
    {
        OpcodeRateLimits {
            default_settings: limits.default_settings,
            non_tx_frequency: limits.non_tx_frequency,
            non_tx_max_total_size: limits.non_tx_max_total_size,
            tx: rekey(&limits.tx),
            other: rekey(&limits.other),
        }
    }
}

impl vstd::std_specs::convert::FromSpecImpl<&RateLimits> for OpcodeRateLimits {
    open spec fn obeys_from_spec() -> bool {
        false
    }

    open spec fn from_spec(limits: &RateLimits) -> Self {
        arbitrary()
    }
}

/// The entry of `opcode`, if any.
pub open spec fn row_of(rows: Map<u8, RateLimit>, opcode: u8) -> Option<RateLimit> {
    if rows.contains_key(opcode) {
        Some(rows[opcode])
    } else {
        None
    }
}

/// The row that `V2_RATE_LIMITS` of `chia_sdk_client` has for the message type with the wire byte
/// `opcode`: among those that count against the aggregate, or among the transaction messages.
pub uninterp spec fn upstream_row(counted: bool, opcode: u8) -> Option<RateLimit>;

/// `V2_RATE_LIMITS` of `chia_sdk_client`, the table a stock peer applies, with its whole numbers
/// as integers. The numbers of the default row, of the two aggregates and of three rows are stated:
/// `Handshake` (1), `NewTransaction` (21) and `TransactionAck` (49). Those of the other rows have a
/// name. No two rows are for one message type, and they come in no particular order.
#[verifier::external_body]
fn upstream_limits() -> (r: RateLimits)
    ensures
        r.default_settings == (RateLimit {
            frequency: 100,
            max_size: 0x10_0000,
            max_total_size: Some(0x640_0000),
        }),
        r.non_tx_frequency == 1000,
        r.non_tx_max_total_size == 0x640_0000,
        forall|opcode: u8| #[trigger] upstream_row(false, opcode) == row_of(rekeyed(r.tx@), opcode),
        forall|opcode: u8| #[trigger] upstream_row(true, opcode) == row_of(rekeyed(r.other@), opcode),
        row_of(rekeyed(r.other@), 1) == Some(RateLimit { frequency: 5, max_size: 10240, max_total_size: Some(51200) }),
        row_of(rekeyed(r.tx@), 21) == Some(
            RateLimit { frequency: 5000, max_size: 100, max_total_size: Some(500_000) },
        ),
        row_of(rekeyed(r.tx@), 49) == Some(RateLimit { frequency: 5000, max_size: 2048, max_total_size: None }),
        r.tx@.len() >= 5,
        r.other@.len() >= 30,
        distinct_types(r.tx@),
        distinct_types(r.other@),
{
    let upstream = &*chia_sdk_client::V2_RATE_LIMITS;
    let plain = |limit: &chia_sdk_client::RateLimit| RateLimit {
        frequency: limit.frequency as u64,
        max_size: limit.max_size as u64,
        max_total_size: limit.max_total_size.map(|total| total as u64),
    };
    RateLimits {
        default_settings: plain(&upstream.default_settings),
        non_tx_frequency: upstream.non_tx_frequency as u64,
        non_tx_max_total_size: upstream.non_tx_max_total_size as u64,
        tx: upstream.tx.iter().map(|(msg_type, limit)| (*msg_type, plain(limit))).collect(),
        other: upstream.other.iter().map(|(msg_type, limit)| (*msg_type, plain(limit))).collect(),
    }
}

impl Default for OpcodeRateLimits {
    /// The table of a stock peer, so that a Chia opcode is limited exactly as such a peer limits
    /// it. DIG opcodes have no entry in it.
    fn default() -> (r: Self)
        ensures
            r@.default_settings == (RateLimit {
                frequency: 100,
                max_size: 0x10_0000,
                max_total_size: Some(0x640_0000),
            }),
            r@.non_tx_frequency == 1000,
            r@.non_tx_max_total_size == 0x640_0000,
            forall|opcode: u8| #[trigger] row_of(r@.tx, opcode) == upstream_row(false, opcode),
            forall|opcode: u8| #[trigger] row_of(r@.other, opcode) == upstream_row(true, opcode),
            row_of(r@.other, 1) == Some(
                (RateLimit { frequency: 5, max_size: 10240, max_total_size: Some(51200) }),
            ),
            row_of(r@.tx, 21) == Some(
                (RateLimit { frequency: 5000, max_size: 100, max_total_size: Some(500_000) }),
            ),
            row_of(r@.tx, 49) == Some((RateLimit { frequency: 5000, max_size: 2048, max_total_size: None })),
            r@.tx.len() >= 5,
            r@.other.len() >= 30,
            r@.keyed_below_the_dig_band(),
    {
        let limits = upstream_limits();
        OpcodeRateLimits::from(&limits)
    }
}

impl OpcodeRateLimits {
    /// The budgets of an opcode without an entry of its own.
    #[must_use]
    pub fn default_settings(&self) -> (r: RateLimit)
        ensures
            r == self@.default_settings,
    {
        self.default_settings
    }

    /// How many messages may count against the aggregate.
    #[must_use]
    pub fn non_tx_frequency(&self) -> (r: u64)
        ensures
            r == self@.non_tx_frequency,
    {
        self.non_tx_frequency
    }

    /// How many bytes may count against the aggregate.
    #[must_use]
    pub fn non_tx_max_total_size(&self) -> (r: u64)
        ensures
            r == self@.non_tx_max_total_size,
    {
        self.non_tx_max_total_size
    }

    /// The transaction opcodes.
    #[must_use]
    pub fn tx(&self) -> (r: &HashMap<u8, RateLimit>)
        ensures
            r@ == self@.tx,
    {
        &self.tx
    }

    /// The opcodes that count against the aggregate.
    #[must_use]
    pub fn other(&self) -> (r: &HashMap<u8, RateLimit>)
        ensures
            r@ == self@.other,
    {
        &self.other
    }
}

// ---------------------------------------------------------------------------
// Verdicts
// ---------------------------------------------------------------------------

/// The verdict on one message, in either [`Direction`].
///
/// Refusal is split in two because the two halves demand opposite behaviour: one is worth waiting
/// out, the other is a permanent error.
#[derive(Debug, Clone, Copy, PartialEq, Eq, Structural)]
pub enum Admission {
    /// May be sent now; its cost has been charged to the current window.
    Admitted,
    /// Refused for now, but a later window admits it.
    Deferred,
    /// Refused in every window, so waiting never helps.
    Unsendable,
}

/// Which side of the link a limiter guards, and therefore whether a refused message is charged.
///
/// An inbound refusal is charged, because the peer already spent our bandwidth: a peer whose
/// messages are rejected keeps burning its budget. An outbound refusal is not, because we chose
/// not to send: a caller that backs off and retries is not penalised for asking early.
#[derive(Debug, Clone, Copy, PartialEq, Eq, Structural)]
pub enum Direction {
    /// Messages received from a peer; a refusal is charged.
    Inbound,
    /// Messages about to be sent; a refusal is not charged.
    Outbound,
}

/// The ratio by which every budget but the size of one message is scaled. Its denominator is above
/// 0.
#[derive(Debug, Clone, Copy, PartialEq, Eq)]
pub struct LimitFactor {
    numerator: u64,
    denominator: u64,
}

impl LimitFactor {
    #[verifier::type_invariant]
    spec fn has_a_value(self) -> bool {
        self.denominator > 0
    }

    /// The number above the bar.
    pub closed spec fn over(self) -> int {
        self.numerator as int
    }

    /// The number below the bar.
    pub closed spec fn under(self) -> int {
        self.denominator as int
    }

    /// The ratio `numerator / denominator`, or `None` where the denominator is 0.
    #[must_use]
    pub fn new(numerator: u64, denominator: u64) -> (r: Option<Self>)
        ensures
            match r {
                Some(factor) => denominator != 0 && factor.over() == numerator && factor.under() == denominator,
                None => denominator == 0,
            },
    {
        if denominator == 0 {
            None
        } else {
            Some(LimitFactor { numerator, denominator })
        }
    }

    /// The ratio 1, which leaves every budget as it is.
    #[must_use]
    pub fn nominal() -> (r: Self)
        ensures
            r.over() == 1,
            r.under() == 1,
    {
        LimitFactor { numerator: 1, denominator: 1 }
    }

    /// The number above the bar.
    #[must_use]
    pub fn numerator(&self) -> (r: u64)
        ensures
            r == self.over(),
    {
        self.numerator
    }

    /// The number below the bar, which is never 0.
    #[must_use]
    pub fn denominator(&self) -> (r: u64)
        ensures
            r == self.under(),
            r > 0,
    {
        proof {
            use_type_invariant(self);
        }
        self.denominator
    }

    /// Whether `amount` is within `budget` scaled by this ratio.
    fn admits(&self, amount: u64, budget: u128) -> (r: bool)
        ensures
            r == within(amount as int, budget as int, *self),
    {
        let (over, under) = (self.numerator, self.denominator);
        assert(0 <= amount * under < 0x1_0000_0000_0000_0000_0000_0000_0000_0000) by (nonlinear_arith)
            requires
                0 <= amount <= 0xffff_ffff_ffff_ffff,
                0 <= under <= 0xffff_ffff_ffff_ffff,
        ;
        let needed: u128 = (amount as u128) * (under as u128);
        match budget.checked_mul(over as u128) {
            Some(allowed) => needed <= allowed,
            None => true,
        }
    }
}

/// Whether `amount` is within `budget` scaled by `factor`.
pub open spec fn within(amount: int, budget: int, factor: LimitFactor) -> bool {
    amount * factor.under() <= budget * factor.over()
}

/// What a window has been charged with.
#[verifier::ext_equal]
pub struct Usage {
    /// Messages per opcode; an opcode without an entry has none.
    pub counts: Map<u8, u64>,
    /// Bytes per opcode; an opcode without an entry has none.
    pub sizes: Map<u8, u64>,
    /// Messages of the aggregate.
    pub non_tx_count: u64,
    /// Bytes of the aggregate.
    pub non_tx_size: u64,
}

/// A window that has been charged with nothing.
pub open spec fn unused() -> Usage {
    Usage { counts: Map::empty(), sizes: Map::empty(), non_tx_count: 0, non_tx_size: 0 }
}

/// The entry of `opcode`, or 0.
pub open spec fn amount_of(amounts: Map<u8, u64>, opcode: u8) -> u64 {
    if amounts.contains_key(opcode) {
        amounts[opcode]
    } else {
        0
    }
}

/// The sum, or the largest number where the sum is above it.
pub open spec fn saturating_sum(a: u64, b: u64) -> u64 {
    if a + b > u64::MAX {
        u64::MAX
    } else {
        (a + b) as u64
    }
}

/// The size a payload is charged with: its length, as far as a four-byte length prefix counts.
pub open spec fn charged_size(len: nat) -> u64 {
    if len > u32::MAX {
        u32::MAX as u64
    } else {
        len as u64
    }
}

impl LimitTable {
    /// Whether no row is keyed in the DIG band, which holds of every table that is derived.
    pub open spec fn keyed_below_the_dig_band(self) -> bool {
        &&& forall|opcode: u8| #[trigger] self.tx.contains_key(opcode) ==> opcode < opcodes::DIG_BAND_START
        &&& forall|opcode: u8| #[trigger] self.other.contains_key(opcode) ==> opcode < opcodes::DIG_BAND_START
    }

    /// The budgets of `opcode`: its transaction entry, else its other entry, else the default.
    pub open spec fn limit_of(self, opcode: u8) -> RateLimit {
        if self.tx.contains_key(opcode) {
            self.tx[opcode]
        } else if self.other.contains_key(opcode) {
            self.other[opcode]
        } else {
            self.default_settings
        }
    }

    /// Whether `opcode` counts against the aggregate.
    pub open spec fn counts_against_non_tx(self, opcode: u8) -> bool {
        !self.tx.contains_key(opcode) && self.other.contains_key(opcode)
    }
}

/// The bytes that messages of one opcode may hold in all.
pub open spec fn max_total(limit: RateLimit) -> int {
    match limit.max_total_size {
        Some(total) => total as int,
        None => limit.frequency * limit.max_size,
    }
}

/// Whether a message fits a window that has been charged with nothing.
pub open spec fn fits_an_empty_window(table: LimitTable, factor: LimitFactor, opcode: u8, size: u64) -> bool {
    let limit = table.limit_of(opcode);
    &&& size <= limit.max_size
    &&& within(size as int, max_total(limit), factor)
    &&& within(1, limit.frequency as int, factor)
    &&& table.counts_against_non_tx(opcode) ==> within(1, table.non_tx_frequency as int, factor) && within(
        size as int,
        table.non_tx_max_total_size as int,
        factor,
    )
}

/// What a window has been charged with once a message is charged too.
pub open spec fn charged(usage: Usage, table: LimitTable, opcode: u8, size: u64) -> Usage {
    let counted = table.counts_against_non_tx(opcode);
    Usage {
        counts: usage.counts.insert(opcode, saturating_sum(amount_of(usage.counts, opcode), 1)),
        sizes: usage.sizes.insert(opcode, saturating_sum(amount_of(usage.sizes, opcode), size)),
        non_tx_count: if counted {
            saturating_sum(usage.non_tx_count, 1)
        } else {
            usage.non_tx_count
        },
        non_tx_size: if counted {
            saturating_sum(usage.non_tx_size, size)
        } else {
            usage.non_tx_size
        },
    }
}

/// Whether a window that has been charged with `usage` is within the budgets of `opcode` and, where
/// the opcode counts against it, within those of the aggregate.
pub open spec fn within_budgets(usage: Usage, table: LimitTable, factor: LimitFactor, opcode: u8) -> bool {
    let limit = table.limit_of(opcode);
    &&& table.counts_against_non_tx(opcode) ==> within(
        usage.non_tx_count as int,
        table.non_tx_frequency as int,
        factor,
    ) && within(usage.non_tx_size as int, table.non_tx_max_total_size as int, factor)
    &&& within(amount_of(usage.counts, opcode) as int, limit.frequency as int, factor)
    &&& within(amount_of(usage.sizes, opcode) as int, max_total(limit), factor)
}

/// The verdict on a message of `size` bytes in a window that has been charged with `usage`.
pub open spec fn verdict(table: LimitTable, factor: LimitFactor, usage: Usage, opcode: u8, size: u64) -> Admission {
    if !fits_an_empty_window(table, factor, opcode, size) {
        Admission::Unsendable
    } else if !within_budgets(charged(usage, table, opcode, size), table, factor, opcode) {
        Admission::Deferred
    } else {
        Admission::Admitted
    }
}

/// The state of a limiter.
#[verifier::ext_equal]
pub struct LimiterState {
    /// The side it guards.
    pub direction: Direction,
    /// The length of a window.
    pub reset_seconds: u64,
    /// The number of the current window.
    pub period: u64,
    /// The ratio of the budgets.
    pub factor: LimitFactor,
    /// The table.
    pub table: LimitTable,
    /// What the current window has been charged with.
    pub usage: Usage,
}

/// The state of a limiter that was made at the time `now`: nothing has been charged.
pub open spec fn started(
    now: u64,
    direction: Direction,
    reset_seconds: u64,
    factor: LimitFactor,
    table: LimitTable,
) -> LimiterState {
    LimiterState { direction, reset_seconds, period: now / reset_seconds, factor, table, usage: unused() }
}

impl LimiterState {
    /// The state at the time `now`: in a new window nothing has been charged.
    pub open spec fn rolled(self, now: u64) -> LimiterState {
        if self.period == now / self.reset_seconds {
            self
        } else {
            LimiterState { period: now / self.reset_seconds, usage: unused(), ..self }
        }
    }

    /// The verdict on a message of `len` payload bytes at the time `now`.
    pub open spec fn verdict_at(self, now: u64, opcode: u8, len: nat) -> Admission {
        verdict(self.table, self.factor, self.rolled(now).usage, opcode, charged_size(len))
    }

    /// The state after such a message: it is charged when it is admitted, and on the inbound side
    /// also when it is refused.
    pub open spec fn after(self, now: u64, opcode: u8, len: nat) -> LimiterState {
        let rolled = self.rolled(now);
        if self.direction == Direction::Inbound || self.verdict_at(now, opcode, len) == Admission::Admitted {
            LimiterState { usage: charged(rolled.usage, self.table, opcode, charged_size(len)), ..rolled }
        } else {
            rolled
        }
    }
}

// ---------------------------------------------------------------------------
// The limiter
// ---------------------------------------------------------------------------

/// The length of a window in seconds, which is never 0.
#[derive(Debug, Clone, Copy)]
struct WindowLength {
    seconds: u64,
}

impl WindowLength {
    #[verifier::type_invariant]
    spec fn counts_time(self) -> bool {
        self.seconds > 0
    }
}

/// A windowed limiter over [`OpcodeRateLimits`], in one [`Direction`].
#[derive(Debug, Clone)]
pub struct OpcodeRateLimiter {
    direction: Direction,
    window: WindowLength,
    period: u64,
    limit_factor: LimitFactor,
    counts: HashMap<u8, u64>,
    cumulative_sizes: HashMap<u8, u64>,
    non_tx_count: u64,
    non_tx_size: u64,
    limits: OpcodeRateLimits,
}

impl View for OpcodeRateLimiter {
    type V = LimiterState;

    closed spec fn view(&self) -> LimiterState {
        LimiterState {
            direction: self.direction,
            reset_seconds: self.window.seconds,
            period: self.period,
            factor: self.limit_factor,
            table: self.limits@,
            usage: Usage {
                counts: self.counts@,
                sizes: self.cumulative_sizes@,
                non_tx_count: self.non_tx_count,
                non_tx_size: self.non_tx_size,
            },
        }
    }
}

/// `SystemTime::elapsed` of std, of the Unix epoch: the whole seconds since then, or `None` where
/// the clock is set before it. Nothing is promised of the time.
#[verifier::external_body]
fn seconds_since_epoch() -> (r: Option<u64>) {
    std::time::UNIX_EPOCH.elapsed().ok().map(|elapsed| elapsed.as_secs())
}

/// The time that a reading of the clock stands for. A clock that is set before the epoch reads
/// as 0.
pub fn time_of_reading(reading: Option<u64>) -> (r: u64)
    ensures
        r == (match reading {
            Some(seconds) => seconds,
            None => 0,
        }),
{
    match reading {
        Some(seconds) => seconds,
        None => 0,
    }
}

/// The seconds since the Unix epoch, as the clock reads now. Nothing is promised of the time;
/// [`time_of_reading`] says what each reading stands for.
fn now_seconds() -> (r: u64) {
    time_of_reading(seconds_since_epoch())
}

/// The entry of `opcode`, or 0.
fn read_amount(amounts: &HashMap<u8, u64>, opcode: u8) -> (r: u64)
    ensures
        r == amount_of(amounts@, opcode),
{
    match amounts.get(&opcode) {
        Some(amount) => *amount,
        None => 0,
    }
}

impl OpcodeRateLimiter {
    /// A limiter over `limits` guarding `direction`, in a window of `reset_seconds` that starts
    /// with nothing charged. `limit_factor` scales every budget but the size of one message.
    #[must_use]
    pub fn new(direction: Direction, reset_seconds: u64, limit_factor: LimitFactor, limits: OpcodeRateLimits) -> (r:
        Self)
        requires
            reset_seconds > 0,
        ensures
            exists|now: u64| r@ == #[trigger] started(now, direction, reset_seconds, limit_factor, limits@),
    {
        let now = now_seconds();
        OpcodeRateLimiter::new_at(now, direction, reset_seconds, limit_factor, limits)
    }

    /// The limiter that [`OpcodeRateLimiter::new`] gives when the clock reads `now`.
    #[must_use]
    pub fn new_at(
        now: u64,
        direction: Direction,
        reset_seconds: u64,
        limit_factor: LimitFactor,
        limits: OpcodeRateLimits,
    ) -> (r: Self)
        requires
            reset_seconds > 0,
        ensures
            r@ == started(now, direction, reset_seconds, limit_factor, limits@),
    {
        OpcodeRateLimiter {
            direction,
            window: WindowLength { seconds: reset_seconds },
            period: now / reset_seconds,
            limit_factor,
            counts: HashMap::new(),
            cumulative_sizes: HashMap::new(),
            non_tx_count: 0,
            non_tx_size: 0,
            limits,
        }
    }

    /// Whether `message` passes the limiter now, charging it as [`OpcodeRateLimiter::try_admit`] does.
    pub fn allow(&mut self, message: &DigMessage) -> (r: bool)
        ensures
            exists|now: u64|
                {
                    &&& r == (#[trigger] old(self)@.verdict_at(now, message.msg_type, message.data@.len())
                        == Admission::Admitted)
                    &&& final(self)@ == old(self)@.after(now, message.msg_type, message.data@.len())
                },
    {
        let admission = self.try_admit(message);
        admission == Admission::Admitted
    }

    /// Whether `message` passes now and, when it does not, whether waiting can help. The verdict
    /// is the one of [`OpcodeRateLimiter::try_admit_at`] at the time that the clock reads.
    pub fn try_admit(&mut self, message: &DigMessage) -> (r: Admission)
        ensures
            exists|now: u64|
                {
                    &&& r == #[trigger] old(self)@.verdict_at(now, message.msg_type, message.data@.len())
                    &&& final(self)@ == old(self)@.after(now, message.msg_type, message.data@.len())
                },
    {
        let now = now_seconds();
        self.try_admit_at(now, message)
    }

    /// The verdict on `message` when the clock reads `now`. A message that fits no window is
    /// unsendable; one that fits an empty window, but not what is left of this one, is deferred.
    /// Whether a refusal is charged depends on the [`Direction`] and on nothing else.
    pub fn try_admit_at(&mut self, now: u64, message: &DigMessage) -> (r: Admission)
        ensures
            r == old(self)@.verdict_at(now, message.msg_type, message.data@.len()),
            final(self)@ == old(self)@.after(now, message.msg_type, message.data@.len()),
            final(self)@.period == now / old(self)@.reset_seconds,
            final(self)@.reset_seconds == old(self)@.reset_seconds,
            final(self)@.direction == old(self)@.direction,
            final(self)@.factor == old(self)@.factor,
            final(self)@.table == old(self)@.table,
    {
        self.roll_window(now);
        let ghost rolled = self@;

        let len: usize = message.data.len();
        let size: u64 = if len > 0xffff_ffff {
            0xffff_ffff
        } else {
            len as u64
        };
        let opcode: u8 = message.msg_type;

        let mut limit: RateLimit = self.limits.default_settings;
        let mut counts_against_non_tx: bool = false;
        match self.limits.tx.get(&opcode) {
            Some(tx_limit) => {
                limit = *tx_limit;
            },
            None => match self.limits.other.get(&opcode) {
                Some(other_limit) => {
                    limit = *other_limit;
                    counts_against_non_tx = true;
                },
                None => {},
            },
        }
        let total: u128 = match limit.max_total_size {
            Some(total) => total as u128,
            None => {
                let (frequency, max_size) = (limit.frequency, limit.max_size);
                assert(0 <= frequency * max_size < 0x1_0000_0000_0000_0000_0000_0000_0000_0000)
                    by (nonlinear_arith)
                    requires
                        0 <= frequency <= 0xffff_ffff_ffff_ffff,
                        0 <= max_size <= 0xffff_ffff_ffff_ffff,
                ;
                (frequency as u128) * (max_size as u128)
            },
        };
        let factor: LimitFactor = self.limit_factor;
        let frequency: u128 = limit.frequency as u128;
        let non_tx_frequency: u128 = self.limits.non_tx_frequency as u128;
        let non_tx_total: u128 = self.limits.non_tx_max_total_size as u128;

        // Measured against an empty window, so it isolates the budgets that a new window does not
        // clear.
        let fits_an_empty_window: bool = size <= limit.max_size && factor.admits(size, total) && factor.admits(
            1,
            frequency,
        ) && (!counts_against_non_tx || (factor.admits(1, non_tx_frequency) && factor.admits(
            size,
            non_tx_total,
        )));

        let new_count: u64 = read_amount(&self.counts, opcode).saturating_add(1);
        let new_cumulative: u64 = read_amount(&self.cumulative_sizes, opcode).saturating_add(size);
        let mut new_non_tx_count: u64 = self.non_tx_count;
        let mut new_non_tx_size: u64 = self.non_tx_size;
        if counts_against_non_tx {
            new_non_tx_count = new_non_tx_count.saturating_add(1);
            new_non_tx_size = new_non_tx_size.saturating_add(size);
        }
        let fits_this_window: bool = (!counts_against_non_tx || (factor.admits(new_non_tx_count, non_tx_frequency)
            && factor.admits(new_non_tx_size, non_tx_total))) && factor.admits(new_count, frequency)
            && factor.admits(new_cumulative, total);

        let admission: Admission = if !fits_an_empty_window {
            Admission::Unsendable
        } else if !fits_this_window {
            Admission::Deferred
        } else {
            Admission::Admitted
        };

        if self.direction == Direction::Inbound || admission == Admission::Admitted {
            self.counts.insert(opcode, new_count);
            self.cumulative_sizes.insert(opcode, new_cumulative);
            self.non_tx_count = new_non_tx_count;
            self.non_tx_size = new_non_tx_size;
            assert(self@.usage =~= charged(rolled.usage, rolled.table, opcode, size));
        }
        admission
    }

    /// Clears what was charged when `now` is in a new window: every counter is back to nothing.
    pub fn roll_window(&mut self, now: u64)
        ensures
            final(self)@ == old(self)@.rolled(now),
    {
        proof {
            use_type_invariant(&self.window);
        }
        let period: u64 = now / self.window.seconds;
        if self.period == period {
            return;
        }
        self.period = period;
        self.counts.clear();
        self.cumulative_sizes.clear();
        self.non_tx_count = 0;
        self.non_tx_size = 0;
        assert(self@.usage =~= unused());
    }
}

// ---------------------------------------------------------------------------
// Laws of the tables
// ---------------------------------------------------------------------------

/// Re-keying keeps every entry with its limits, under its wire byte, when the entries are keyed
/// by pairwise different bytes: nothing is dropped, and nothing collides.
pub proof fn every_entry_survives_the_rekey(entries: Seq<(ProtocolMessageTypes, RateLimit)>)
    requires
        keyed_apart(entries),
    ensures
        every_row_is_kept(entries, rekeyed(entries)),
    decreases entries.len(),
{
    if entries.len() > 0 {
        let before = entries.drop_last();
        let last = entries.last();
        let byte = opcodes::message_type_encoding(last.0)[0];
        assert(last == entries[entries.len() - 1]);
        assert(keyed_apart(before)) by {
            assert forall|i: int| 0 <= i < before.len() implies opcodes::message_type_encoding(
                #[trigger] before[i].0,
            ).len() > 0 by {
                assert(before[i] == entries[i]);
            }
            assert forall|i: int, j: int| 0 <= i < j < before.len() implies opcodes::message_type_encoding(
                #[trigger] before[i].0,
            )[0] != opcodes::message_type_encoding(#[trigger] before[j].0)[0] by {
                assert(before[i] == entries[i] && before[j] == entries[j]);
            }
        }
        every_entry_survives_the_rekey(before);
        if rekeyed(before).contains_key(byte) {
            rekeying_adds_no_opcode(before, byte);
            let k = choose|k: int|
                0 <= k < before.len() && opcodes::message_type_encoding(#[trigger] before[k].0)[0] == byte;
            assert(before[k] == entries[k]);
        }
        assert forall|i: int| 0 <= i < entries.len() implies rekeyed(entries).contains_key(
            opcodes::message_type_encoding(#[trigger] entries[i].0)[0],
        ) && rekeyed(entries)[opcodes::message_type_encoding(entries[i].0)[0]] == entries[i].1 by {
            if i < entries.len() - 1 {
                assert(before[i] == entries[i]);
            }
        }
    }
}

/// Re-keying makes no entry up: the byte of each comes from an entry of the source.
pub proof fn rekeying_adds_no_opcode(entries: Seq<(ProtocolMessageTypes, RateLimit)>, opcode: u8)
    requires
        rekeyed(entries).contains_key(opcode),
    ensures
        exists|k: int|
            0 <= k < entries.len() && opcodes::message_type_encoding(#[trigger] entries[k].0).len() > 0
                && opcodes::message_type_encoding(entries[k].0)[0] == opcode,
    decreases entries.len(),
{
    if entries.len() > 0 {
        let before = entries.drop_last();
        let encoding = opcodes::message_type_encoding(entries.last().0);
        assert(entries.last() == entries[entries.len() - 1]);
        if !(encoding.len() > 0 && encoding[0] == opcode) {
            rekeying_adds_no_opcode(before, opcode);
            let k = choose|k: int|
                0 <= k < before.len() && opcodes::message_type_encoding(#[trigger] before[k].0).len() > 0
                    && opcodes::message_type_encoding(before[k].0)[0] == opcode;
            assert(before[k] == entries[k]);
        }
    }
}

/// A DIG opcode falls to the default settings, and does not count against the aggregate, under
/// every table that is derived.
pub proof fn dig_opcodes_fall_to_the_default_settings(table: LimitTable, opcode: u8)
    requires
        table.keyed_below_the_dig_band(),
        opcode >= opcodes::DIG_BAND_START,
    ensures
        table.limit_of(opcode) == table.default_settings,
        !table.counts_against_non_tx(opcode),
{
}

// ---------------------------------------------------------------------------
// Laws of the limiter
// ---------------------------------------------------------------------------

/// A smaller amount is within every budget that a larger one is within.
proof fn less_is_within_too(less: int, more: int, budget: int, factor: LimitFactor)
    requires
        less <= more,
        within(more, budget, factor),
    ensures
        within(less, budget, factor),
{
    vstd::arithmetic::mul::lemma_mul_inequality(less, more, factor.under());
}

/// Nothing is within every budget.
proof fn nothing_is_within(budget: int, factor: LimitFactor)
    requires
        budget >= 0,
    ensures
        within(0, budget, factor),
{
    vstd::arithmetic::mul::lemma_mul_nonnegative(budget, factor.over());
}

proof fn totals_are_nonnegative(limit: RateLimit)
    ensures
        max_total(limit) >= 0,
{
    vstd::arithmetic::mul::lemma_mul_nonnegative(limit.frequency as int, limit.max_size as int);
}

/// An unsendable message is unsendable in every window, whatever was charged: waiting never
/// helps.
pub proof fn unsendable_is_refused_in_every_window(
    table: LimitTable,
    factor: LimitFactor,
    usage: Usage,
    later: Usage,
    opcode: u8,
    size: u64,
)
    requires
        verdict(table, factor, usage, opcode, size) == Admission::Unsendable,
    ensures
        verdict(table, factor, later, opcode, size) == Admission::Unsendable,
{
}

/// A message that is not unsendable is admitted by a window that has been charged with nothing.
pub proof fn an_unused_window_admits_what_can_be_sent(
    table: LimitTable,
    factor: LimitFactor,
    usage: Usage,
    opcode: u8,
    size: u64,
)
    requires
        verdict(table, factor, usage, opcode, size) != Admission::Unsendable,
    ensures
        verdict(table, factor, unused(), opcode, size) == Admission::Admitted,
{
    nothing_is_within(table.non_tx_frequency as int, factor);
    nothing_is_within(table.non_tx_max_total_size as int, factor);
}

/// A deferred message is admitted when it is offered again in another window: rolling into that
/// window clears every counter.
pub proof fn a_deferred_message_is_admitted_in_another_window(
    state: LimiterState,
    now: u64,
    later: u64,
    opcode: u8,
    len: nat,
)
    requires
        state.verdict_at(now, opcode, len) == Admission::Deferred,
        later / state.reset_seconds != now / state.reset_seconds,
    ensures
        state.after(now, opcode, len).rolled(later).usage == unused(),
        state.after(now, opcode, len).rolled(later).verdict_at(later, opcode, len) == Admission::Admitted,
        state.after(now, opcode, len).verdict_at(later, opcode, len) == Admission::Admitted,
{
    an_unused_window_admits_what_can_be_sent(
        state.table,
        state.factor,
        state.rolled(now).usage,
        opcode,
        charged_size(len),
    );
}

/// Waiting out the length of a window is enough: a deferred message is admitted when it is
/// offered again that much later.
pub proof fn a_deferred_message_is_admitted_a_window_later(
    state: LimiterState,
    now: u64,
    later: u64,
    opcode: u8,
    len: nat,
)
    requires
        state.reset_seconds > 0,
        state.verdict_at(now, opcode, len) == Admission::Deferred,
        later >= now + state.reset_seconds,
    ensures
        state.after(now, opcode, len).verdict_at(later, opcode, len) == Admission::Admitted,
{
    let window = state.reset_seconds as int;
    vstd::arithmetic::div_mod::lemma_div_is_ordered(now + window, later as int, window);
    vstd::arithmetic::div_mod::lemma_div_plus_one(now as int, window);
    a_deferred_message_is_admitted_in_another_window(state, now, later, opcode, len);
}

/// A refused outbound message costs nothing.
pub proof fn an_outbound_refusal_is_not_charged(state: LimiterState, now: u64, opcode: u8, len: nat)
    requires
        state.direction == Direction::Outbound,
        state.verdict_at(now, opcode, len) != Admission::Admitted,
    ensures
        state.after(now, opcode, len) == state.rolled(now),
{
}

/// An inbound message is charged to its opcode and to the aggregate whatever the verdict, so a
/// flood of refused messages is not free.
pub proof fn an_inbound_refusal_is_charged(state: LimiterState, now: u64, opcode: u8, len: nat)
    requires
        state.direction == Direction::Inbound,
    ensures
        state.after(now, opcode, len).usage == charged(
            state.rolled(now).usage,
            state.table,
            opcode,
            charged_size(len),
        ),
{
}

/// The verdict does not depend on the direction.
pub proof fn both_directions_give_one_verdict(state: LimiterState, direction: Direction, now: u64, opcode: u8, len: nat)
    ensures
        (LimiterState { direction, ..state }).verdict_at(now, opcode, len) == state.verdict_at(now, opcode, len),
{
}

/// Whether one window has been charged with at most what another has.
pub open spec fn no_more_than(less: Usage, more: Usage) -> bool {
    &&& less.non_tx_count <= more.non_tx_count
    &&& less.non_tx_size <= more.non_tx_size
    &&& forall|opcode: u8| #[trigger] amount_of(less.counts, opcode) <= amount_of(more.counts, opcode)
    &&& forall|opcode: u8| #[trigger] amount_of(less.sizes, opcode) <= amount_of(more.sizes, opcode)
}

/// What has been charged never turns a refusal into an admission: a message that a fuller window
/// admits is admitted by an emptier one.
pub proof fn charges_never_help(
    table: LimitTable,
    factor: LimitFactor,
    less: Usage,
    more: Usage,
    opcode: u8,
    size: u64,
)
    requires
        no_more_than(less, more),
        verdict(table, factor, more, opcode, size) == Admission::Admitted,
    ensures
        verdict(table, factor, less, opcode, size) == Admission::Admitted,
{
    let a = charged(less, table, opcode, size);
    let b = charged(more, table, opcode, size);
    let limit = table.limit_of(opcode);
    assert(amount_of(less.counts, opcode) <= amount_of(more.counts, opcode));
    assert(amount_of(less.sizes, opcode) <= amount_of(more.sizes, opcode));
    if table.counts_against_non_tx(opcode) {
        less_is_within_too(a.non_tx_count as int, b.non_tx_count as int, table.non_tx_frequency as int, factor);
        less_is_within_too(a.non_tx_size as int, b.non_tx_size as int, table.non_tx_max_total_size as int, factor);
    }
    less_is_within_too(
        amount_of(a.counts, opcode) as int,
        amount_of(b.counts, opcode) as int,
        limit.frequency as int,
        factor,
    );
    less_is_within_too(
        amount_of(a.sizes, opcode) as int,
        amount_of(b.sizes, opcode) as int,
        max_total(limit),
        factor,
    );
}

/// A window that has been charged with nothing is within every budget.
pub proof fn an_unused_window_is_within_every_budget(table: LimitTable, factor: LimitFactor, opcode: u8)
    ensures
        within_budgets(unused(), table, factor, opcode),
{
    let limit = table.limit_of(opcode);
    totals_are_nonnegative(limit);
    nothing_is_within(table.non_tx_frequency as int, factor);
    nothing_is_within(table.non_tx_max_total_size as int, factor);
    nothing_is_within(limit.frequency as int, factor);
    nothing_is_within(max_total(limit), factor);
}

/// An outbound limiter never lets more through than its budgets hold: within every budget before
/// a message, it is within every budget after it.
pub proof fn outbound_messages_stay_within_every_budget(state: LimiterState, now: u64, opcode: u8, len: nat)
    requires
        state.direction == Direction::Outbound,
        forall|other: u8| #[trigger] within_budgets(state.usage, state.table, state.factor, other),
    ensures
        forall|other: u8| #[trigger]
            within_budgets(state.after(now, opcode, len).usage, state.table, state.factor, other),
{
    let rolled = state.rolled(now);
    let after = state.after(now, opcode, len);
    assert forall|other: u8| #[trigger] within_budgets(after.usage, state.table, state.factor, other) by {
        an_unused_window_is_within_every_budget(state.table, state.factor, other);
        assert(within_budgets(state.usage, state.table, state.factor, other));
        assert(within_budgets(rolled.usage, state.table, state.factor, other));
    }
}

/// A message that is offered to a limiter.
pub struct Offer {
    /// When.
    pub now: u64,
    /// Its opcode.
    pub opcode: u8,
    /// The length of its payload.
    pub len: nat,
}

impl LimiterState {
    /// The state after these messages, one behind the other.
    pub open spec fn after_all(self, offers: Seq<Offer>) -> LimiterState
        decreases offers.len(),
    {
        if offers.len() == 0 {
            self
        } else {
            let last = offers.last();
            self.after_all(offers.drop_last()).after(last.now, last.opcode, last.len)
        }
    }

    /// Whether the last of these messages is admitted.
    pub open spec fn admits_last(self, offers: Seq<Offer>) -> bool {
        let last = offers.last();
        self.after_all(offers.drop_last()).verdict_at(last.now, last.opcode, last.len) == Admission::Admitted
    }
}

/// Whether `opcode` is the given one or, where none is given, counts against the aggregate.
pub open spec fn belongs(table: LimitTable, share: Option<u8>, opcode: u8) -> bool {
    match share {
        Some(one) => one == opcode,
        None => table.counts_against_non_tx(opcode),
    }
}

/// How many of these messages are of the share and admitted.
pub open spec fn admitted_count(state: LimiterState, offers: Seq<Offer>, share: Option<u8>) -> nat
    decreases offers.len(),
{
    if offers.len() == 0 {
        0
    } else {
        let before = admitted_count(state, offers.drop_last(), share);
        if state.admits_last(offers) && belongs(state.table, share, offers.last().opcode) {
            before + 1
        } else {
            before
        }
    }
}

/// How many bytes those messages hold.
pub open spec fn admitted_size(state: LimiterState, offers: Seq<Offer>, share: Option<u8>) -> nat
    decreases offers.len(),
{
    if offers.len() == 0 {
        0
    } else {
        let before = admitted_size(state, offers.drop_last(), share);
        if state.admits_last(offers) && belongs(state.table, share, offers.last().opcode) {
            before + charged_size(offers.last().len) as nat
        } else {
            before
        }
    }
}

/// How many bytes are offered in all.
pub open spec fn offered_size(offers: Seq<Offer>) -> nat
    decreases offers.len(),
{
    if offers.len() == 0 {
        0
    } else {
        offered_size(offers.drop_last()) + charged_size(offers.last().len) as nat
    }
}

/// Whether these messages are what one window is offered, from where nothing has been charged to
/// it, and the counters can hold them.
pub open spec fn fills_one_window(state: LimiterState, offers: Seq<Offer>, window: u64) -> bool {
    &&& state.usage == unused() || state.period != window
    &&& forall|i: int| 0 <= i < offers.len() ==> (#[trigger] offers[i]).now / state.reset_seconds == window
    &&& offers.len() <= u64::MAX
    &&& offered_size(offers) <= u64::MAX
}

/// What is admitted stays within the budgets, in either direction. In one window, the admitted
/// messages of an opcode and their bytes are within its scaled budgets, those of all the counted
/// opcodes together are within the scaled aggregate, and none is larger than its row allows.
pub proof fn what_is_admitted_stays_within_every_budget(
    state: LimiterState,
    offers: Seq<Offer>,
    window: u64,
    opcode: u8,
)
    requires
        fills_one_window(state, offers, window),
    ensures
        within(
            admitted_count(state, offers, Some(opcode)) as int,
            state.table.limit_of(opcode).frequency as int,
            state.factor,
        ),
        within(
            admitted_size(state, offers, Some(opcode)) as int,
            max_total(state.table.limit_of(opcode)),
            state.factor,
        ),
        within(
            admitted_count(state, offers, None) as int,
            state.table.non_tx_frequency as int,
            state.factor,
        ),
        within(
            admitted_size(state, offers, None) as int,
            state.table.non_tx_max_total_size as int,
            state.factor,
        ),
        forall|i: int|
            0 <= i < offers.len() && state.admits_last(#[trigger] offers.take(i + 1)) ==> charged_size(offers[i].len)
                <= state.table.limit_of(offers[i].opcode).max_size,
{
    charges_cover_what_is_admitted(state, offers, window, opcode);
    assert forall|i: int| 0 <= i < offers.len() && state.admits_last(#[trigger] offers.take(i + 1)) implies charged_size(
        offers[i].len,
    ) <= state.table.limit_of(offers[i].opcode).max_size by {
        assert(offers.take(i + 1).last() == offers[i]);
        messages_leave_the_table_alone(state, offers.take(i + 1).drop_last());
    }
}

/// No message changes the table.
proof fn messages_leave_the_table_alone(state: LimiterState, offers: Seq<Offer>)
    ensures
        state.after_all(offers).table == state.table,
    decreases offers.len(),
{
    if offers.len() > 0 {
        messages_leave_the_table_alone(state, offers.drop_last());
    }
}

/// What the current window has been charged with covers what it has admitted.
proof fn charges_cover_what_is_admitted(state: LimiterState, offers: Seq<Offer>, window: u64, opcode: u8)
    requires
        fills_one_window(state, offers, window),
    ensures
        ({
            let after = state.after_all(offers);
            let usage = if after.period == window {
                after.usage
            } else {
                unused()
            };
            let limit = state.table.limit_of(opcode);
            let (count, size) = (
                admitted_count(state, offers, Some(opcode)),
                admitted_size(state, offers, Some(opcode)),
            );
            let (total_count, total_size) = (
                admitted_count(state, offers, None),
                admitted_size(state, offers, None),
            );
            &&& after.table == state.table
            &&& after.factor == state.factor
            &&& after.reset_seconds == state.reset_seconds
            &&& count <= amount_of(usage.counts, opcode) <= offers.len()
            &&& size <= amount_of(usage.sizes, opcode) <= offered_size(offers)
            &&& total_count <= usage.non_tx_count <= offers.len()
            &&& total_size <= usage.non_tx_size <= offered_size(offers)
            &&& within(count as int, limit.frequency as int, state.factor)
            &&& within(size as int, max_total(limit), state.factor)
            &&& within(total_count as int, state.table.non_tx_frequency as int, state.factor)
            &&& within(total_size as int, state.table.non_tx_max_total_size as int, state.factor)
        }),
    decreases offers.len(),
{
    let (table, factor, limit) = (state.table, state.factor, state.table.limit_of(opcode));
    if offers.len() == 0 {
        totals_are_nonnegative(limit);
        nothing_is_within(limit.frequency as int, factor);
        nothing_is_within(max_total(limit), factor);
        nothing_is_within(table.non_tx_frequency as int, factor);
        nothing_is_within(table.non_tx_max_total_size as int, factor);
    } else {
        let earlier = offers.drop_last();
        let last = offers.last();
        assert(last == offers[offers.len() - 1]);
        assert forall|i: int| 0 <= i < earlier.len() implies (#[trigger] earlier[i]).now / state.reset_seconds
            == window by {
            assert(earlier[i] == offers[i]);
        }
        charges_cover_what_is_admitted(state, earlier, window, opcode);
        let before = state.after_all(earlier);
        let usage = before.rolled(last.now).usage;
        let size = charged_size(last.len);
        let after = charged(usage, table, last.opcode, size);
        if state.admits_last(offers) {
            if last.opcode == opcode {
                less_is_within_too(
                    admitted_count(state, offers, Some(opcode)) as int,
                    amount_of(after.counts, opcode) as int,
                    limit.frequency as int,
                    factor,
                );
                less_is_within_too(
                    admitted_size(state, offers, Some(opcode)) as int,
                    amount_of(after.sizes, opcode) as int,
                    max_total(limit),
                    factor,
                );
            }
            if table.counts_against_non_tx(last.opcode) {
                less_is_within_too(
                    admitted_count(state, offers, None) as int,
                    after.non_tx_count as int,
                    table.non_tx_frequency as int,
                    factor,
                );
                less_is_within_too(
                    admitted_size(state, offers, None) as int,
                    after.non_tx_size as int,
                    table.non_tx_max_total_size as int,
                    factor,
                );
            }
        }
    }
}

/// The state after `n` messages of one kind at one time.
pub open spec fn repeated(state: LimiterState, now: u64, opcode: u8, len: nat, n: nat) -> LimiterState
    decreases n,
{
    if n == 0 {
        state
    } else {
        repeated(state, now, opcode, len, (n - 1) as nat).after(now, opcode, len)
    }
}

/// The frequency of an opcode outside the aggregate is exact: while the size budgets do not bind,
/// a window admits messages up to the scaled frequency and defers the next.
pub proof fn the_frequency_budget_is_exact(state: LimiterState, now: u64, opcode: u8, len: nat, n: nat)
    requires
        state.usage == unused(),
        state.period == now / state.reset_seconds,
        !state.table.counts_against_non_tx(opcode),
        n < u64::MAX,
        (n + 1) * charged_size(len) <= u64::MAX,
        charged_size(len) <= state.table.limit_of(opcode).max_size,
        within((n + 1) * charged_size(len), max_total(state.table.limit_of(opcode)), state.factor),
        within(1, state.table.limit_of(opcode).frequency as int, state.factor),
        within(n as int, state.table.limit_of(opcode).frequency as int, state.factor),
    ensures
        repeated(state, now, opcode, len, n).verdict_at(now, opcode, len) == (if within(
            (n + 1) as int,
            state.table.limit_of(opcode).frequency as int,
            state.factor,
        ) {
            Admission::Admitted
        } else {
            Admission::Deferred
        }),
{
    let size = charged_size(len);
    let total = max_total(state.table.limit_of(opcode));
    repeats_are_counted(state, now, opcode, len, n);
    assert((n + 1) * size == n * size + size && n * size >= 0) by (nonlinear_arith)
        requires
            size >= 0,
            n >= 0,
    ;
    less_is_within_too(size as int, (n + 1) * size, total, state.factor);
    nothing_is_within(state.table.non_tx_frequency as int, state.factor);
    nothing_is_within(state.table.non_tx_max_total_size as int, state.factor);
}

/// Messages of one kind that the budgets hold are admitted and counted one by one.
proof fn repeats_are_counted(state: LimiterState, now: u64, opcode: u8, len: nat, n: nat)
    requires
        state.usage == unused(),
        state.period == now / state.reset_seconds,
        !state.table.counts_against_non_tx(opcode),
        n < u64::MAX,
        (n + 1) * charged_size(len) <= u64::MAX,
        charged_size(len) <= state.table.limit_of(opcode).max_size,
        within((n + 1) * charged_size(len), max_total(state.table.limit_of(opcode)), state.factor),
        within(1, state.table.limit_of(opcode).frequency as int, state.factor),
        within(n as int, state.table.limit_of(opcode).frequency as int, state.factor),
    ensures
        ({
            let after = repeated(state, now, opcode, len, n);
            &&& after.usage.non_tx_count == 0
            &&& after.usage.non_tx_size == 0
            &&& amount_of(after.usage.counts, opcode) == n
            &&& amount_of(after.usage.sizes, opcode) == n * charged_size(len)
            &&& after.table == state.table
            &&& after.factor == state.factor
            &&& after.reset_seconds == state.reset_seconds
            &&& after.period == state.period
        }),
    decreases n,
{
    let size = charged_size(len);
    let frequency = state.table.limit_of(opcode).frequency as int;
    let total = max_total(state.table.limit_of(opcode));
    if n > 0 {
        let m = (n - 1) as nat;
        assert((n + 1) * size == n * size + size && n * size == m * size + size && m * size >= 0)
            by (nonlinear_arith)
            requires
                size >= 0,
                n >= 1,
                m == n - 1,
        ;
        less_is_within_too(n * size, (n + 1) * size, total, state.factor);
        less_is_within_too(size as int, (n + 1) * size, total, state.factor);
        less_is_within_too(m as int, n as int, frequency, state.factor);
        nothing_is_within(state.table.non_tx_frequency as int, state.factor);
        nothing_is_within(state.table.non_tx_max_total_size as int, state.factor);
        repeats_are_counted(state, now, opcode, len, m);
    } else {
        assert(0 * size == 0) by (nonlinear_arith);
    }
}

// ---------------------------------------------------------------------------
// The rules one by one
// ---------------------------------------------------------------------------

/// The wire byte of a message type has an entry exactly where an entry of the source has that byte,
/// and of the entries that share a byte the last one counts.
pub proof fn the_last_entry_of_a_byte_counts(entries: Seq<(ProtocolMessageTypes, RateLimit)>, opcode: u8)
    ensures
        rekeyed(entries).contains_key(opcode) <==> exists|i: int|
            0 <= i < entries.len() && opcodes::message_type_encoding(#[trigger] entries[i].0).len() > 0
                && opcodes::message_type_encoding(entries[i].0)[0] == opcode,
        forall|i: int|
            0 <= i < entries.len() && opcodes::message_type_encoding(#[trigger] entries[i].0).len() > 0
                && opcodes::message_type_encoding(entries[i].0)[0] == opcode && (forall|j: int|
                i < j < entries.len() ==> opcodes::message_type_encoding(#[trigger] entries[j].0).len() == 0
                    || opcodes::message_type_encoding(entries[j].0)[0] != opcode) ==> rekeyed(entries)[opcode]
                == entries[i].1,
    decreases entries.len(),
{
    if entries.len() > 0 {
        let before = entries.drop_last();
        let last = entries.len() - 1;
        let encoding = opcodes::message_type_encoding(entries[last].0);
        the_last_entry_of_a_byte_counts(before, opcode);
        if rekeyed(before).contains_key(opcode) {
            let k = choose|k: int|
                0 <= k < before.len() && opcodes::message_type_encoding(#[trigger] before[k].0).len() > 0
                    && opcodes::message_type_encoding(before[k].0)[0] == opcode;
            assert(before[k] == entries[k]);
        }
        assert forall|i: int|
            0 <= i < entries.len() && opcodes::message_type_encoding(#[trigger] entries[i].0).len() > 0
                && opcodes::message_type_encoding(entries[i].0)[0] == opcode implies rekeyed(entries).contains_key(
            opcode,
        ) by {
            if i < last {
                assert(before[i] == entries[i]);
            }
        }
        assert forall|i: int|
            0 <= i < entries.len() && opcodes::message_type_encoding(#[trigger] entries[i].0).len() > 0
                && opcodes::message_type_encoding(entries[i].0)[0] == opcode && (forall|j: int|
                i < j < entries.len() ==> opcodes::message_type_encoding(#[trigger] entries[j].0).len() == 0
                    || opcodes::message_type_encoding(entries[j].0)[0] != opcode) implies rekeyed(entries)[opcode]
            == entries[i].1 by {
            if i < last {
                assert(before[i] == entries[i]);
                assert(encoding.len() == 0 || encoding[0] != opcode);
                assert forall|j: int| i < j < before.len() implies opcodes::message_type_encoding(
                    #[trigger] before[j].0,
                ).len() == 0 || opcodes::message_type_encoding(before[j].0)[0] != opcode by {
                    assert(before[j] == entries[j]);
                }
            }
        }
    }
}

/// A derived table has the numbers of its source, and its rows come from the source's rows of the
/// same kind.
pub proof fn a_derived_table_keeps_the_numbers(limits: RateLimits)
    ensures
        derived(limits).default_settings == limits.default_settings,
        derived(limits).non_tx_frequency == limits.non_tx_frequency,
        derived(limits).non_tx_max_total_size == limits.non_tx_max_total_size,
        derived(limits).tx == rekeyed(limits.tx@),
        derived(limits).other == rekeyed(limits.other@),
{
}

/// A transaction row goes before another row, and that before the default. Only an opcode whose row
/// is another row counts against the aggregate.
pub proof fn the_row_of_an_opcode(table: LimitTable, opcode: u8)
    ensures
        table.tx.contains_key(opcode) ==> table.limit_of(opcode) == table.tx[opcode],
        !table.tx.contains_key(opcode) && table.other.contains_key(opcode) ==> table.limit_of(opcode)
            == table.other[opcode],
        !table.tx.contains_key(opcode) && !table.other.contains_key(opcode) ==> table.limit_of(opcode)
            == table.default_settings,
        table.counts_against_non_tx(opcode) <==> table.other.contains_key(opcode) && !table.tx.contains_key(opcode),
        row_of(table.tx, opcode) is Some <==> table.tx.contains_key(opcode),
        table.tx.contains_key(opcode) ==> row_of(table.tx, opcode) == Some(table.tx[opcode]),
        table.keyed_below_the_dig_band() && opcode >= 200 ==> !table.tx.contains_key(opcode)
            && !table.other.contains_key(opcode),
{
}

/// An amount is within a budget where the amount times the number below the bar is no more than the
/// budget times the number above it. A row without a total of its own has room for as many of its
/// largest messages as its frequency allows.
pub proof fn budgets_are_scaled_by_the_ratio(amount: int, budget: int, factor: LimitFactor, limit: RateLimit)
    ensures
        within(amount, budget, factor) <==> amount * factor.under() <= budget * factor.over(),
        limit.max_total_size matches Some(total) ==> max_total(limit) == total,
        limit.max_total_size is None ==> max_total(limit) == limit.frequency * limit.max_size,
{
}

/// A payload is charged with its length, up to the largest that a four-byte prefix holds.
pub proof fn a_payload_is_charged_with_its_length(len: nat)
    ensures
        len < 0x1_0000_0000 ==> charged_size(len) == len,
        len >= 0x1_0000_0000 ==> charged_size(len) == 0xffff_ffff,
{
}

/// Charging a message adds one message and its bytes to its opcode and, where the opcode counts
/// against the aggregate, to the aggregate. A counter stops at its largest value, and every other
/// counter stays as it is.
pub proof fn a_message_is_charged_once(usage: Usage, table: LimitTable, opcode: u8, size: u64, other: u8)
    ensures
        ({
            let after = charged(usage, table, opcode, size);
            let messages: int = if usage.counts.contains_key(opcode) {
                usage.counts[opcode] as int
            } else {
                0
            };
            let bytes: int = if usage.sizes.contains_key(opcode) {
                usage.sizes[opcode] as int
            } else {
                0
            };
            let max: int = 0xffff_ffff_ffff_ffff;
            let counted = table.other.contains_key(opcode) && !table.tx.contains_key(opcode);
            &&& after.counts.contains_key(opcode)
            &&& after.counts[opcode] == (if messages < max {
                messages + 1
            } else {
                max
            })
            &&& after.sizes.contains_key(opcode)
            &&& after.sizes[opcode] == (if bytes + size <= max {
                bytes + size
            } else {
                max
            })
            &&& after.counts.remove(opcode) == usage.counts.remove(opcode)
            &&& after.sizes.remove(opcode) == usage.sizes.remove(opcode)
            &&& !counted ==> after.non_tx_count == usage.non_tx_count && after.non_tx_size == usage.non_tx_size
            &&& counted ==> after.non_tx_count == (if usage.non_tx_count < max {
                usage.non_tx_count + 1
            } else {
                max
            })
            &&& counted ==> after.non_tx_size == (if usage.non_tx_size + size <= max {
                usage.non_tx_size + size
            } else {
                max
            })
            &&& other != opcode ==> amount_of(after.counts, other) == amount_of(usage.counts, other)
            &&& other != opcode ==> amount_of(after.sizes, other) == amount_of(usage.sizes, other)
        }),
{
    let after = charged(usage, table, opcode, size);
    assert(after.counts.remove(opcode) =~= usage.counts.remove(opcode));
    assert(after.sizes.remove(opcode) =~= usage.sizes.remove(opcode));
}

/// A window that has been charged with nothing has every counter at 0, and a counter without an
/// entry reads as 0.
pub proof fn an_unused_window_holds_nothing(amounts: Map<u8, u64>, opcode: u8)
    ensures
        unused().counts == Map::<u8, u64>::empty(),
        unused().sizes == Map::<u8, u64>::empty(),
        unused().non_tx_count == 0,
        unused().non_tx_size == 0,
        amounts.contains_key(opcode) ==> amount_of(amounts, opcode) == amounts[opcode],
        !amounts.contains_key(opcode) ==> amount_of(amounts, opcode) == 0,
{
}

/// The verdict weighs a message against every budget of its row and, where its opcode counts against
/// the aggregate, against that. It is unsendable where it alone is over one of them, deferred where
/// it is over one of them together with what was charged, and admitted otherwise. The size of one
/// message is not scaled.
pub proof fn a_verdict_weighs_every_budget(
    table: LimitTable,
    factor: LimitFactor,
    usage: Usage,
    opcode: u8,
    size: u64,
)
    ensures
        ({
            let (over, under) = (factor.over(), factor.under());
            let counted = table.other.contains_key(opcode) && !table.tx.contains_key(opcode);
            let row = if table.tx.contains_key(opcode) {
                table.tx[opcode]
            } else if counted {
                table.other[opcode]
            } else {
                table.default_settings
            };
            let total: int = match row.max_total_size {
                Some(total) => total as int,
                None => row.frequency * row.max_size,
            };
            let after = charged(usage, table, opcode, size);
            let alone = {
                &&& size <= row.max_size
                &&& size * under <= total * over
                &&& 1 * under <= row.frequency * over
                &&& counted ==> 1 * under <= table.non_tx_frequency * over
                &&& counted ==> size * under <= table.non_tx_max_total_size * over
            };
            let together = {
                &&& after.counts[opcode] * under <= row.frequency * over
                &&& after.sizes[opcode] * under <= total * over
                &&& counted ==> after.non_tx_count * under <= table.non_tx_frequency * over
                &&& counted ==> after.non_tx_size * under <= table.non_tx_max_total_size * over
            };
            &&& verdict(table, factor, usage, opcode, size) == Admission::Unsendable <==> !alone
            &&& verdict(table, factor, usage, opcode, size) == Admission::Deferred <==> alone && !together
            &&& verdict(table, factor, usage, opcode, size) == Admission::Admitted <==> alone && together
        }),
{
}

/// The verdict looks at the counters of the message's own opcode and, where the opcode counts
/// against it, at the aggregate. What other opcodes were charged with does not matter.
pub proof fn other_opcodes_do_not_weigh_on_a_verdict(
    table: LimitTable,
    factor: LimitFactor,
    one: Usage,
    two: Usage,
    opcode: u8,
    size: u64,
)
    requires
        amount_of(one.counts, opcode) == amount_of(two.counts, opcode),
        amount_of(one.sizes, opcode) == amount_of(two.sizes, opcode),
        table.counts_against_non_tx(opcode) ==> one.non_tx_count == two.non_tx_count && one.non_tx_size
            == two.non_tx_size,
    ensures
        verdict(table, factor, one, opcode, size) == verdict(table, factor, two, opcode, size),
{
}

/// A shorter message is admitted wherever a longer one of its opcode is.
pub proof fn a_shorter_message_is_admitted_too(
    table: LimitTable,
    factor: LimitFactor,
    usage: Usage,
    opcode: u8,
    shorter: u64,
    longer: u64,
)
    requires
        shorter <= longer,
        verdict(table, factor, usage, opcode, longer) == Admission::Admitted,
    ensures
        verdict(table, factor, usage, opcode, shorter) == Admission::Admitted,
{
    let (a, b) = (charged(usage, table, opcode, shorter), charged(usage, table, opcode, longer));
    let total = max_total(table.limit_of(opcode));
    less_is_within_too(shorter as int, longer as int, total, factor);
    less_is_within_too(amount_of(a.sizes, opcode) as int, amount_of(b.sizes, opcode) as int, total, factor);
    if table.counts_against_non_tx(opcode) {
        less_is_within_too(shorter as int, longer as int, table.non_tx_max_total_size as int, factor);
        less_is_within_too(a.non_tx_size as int, b.non_tx_size as int, table.non_tx_max_total_size as int, factor);
    }
}

/// A limiter starts in the window of its time with nothing charged.
pub proof fn a_limiter_starts_in_the_window_of_its_time(
    now: u64,
    direction: Direction,
    reset_seconds: u64,
    factor: LimitFactor,
    table: LimitTable,
)
    requires
        reset_seconds > 0,
    ensures
        ({
            let state = started(now, direction, reset_seconds, factor, table);
            &&& state.period * reset_seconds <= now < (state.period + 1) * reset_seconds
            &&& state.direction == direction
            &&& state.reset_seconds == reset_seconds
            &&& state.factor == factor
            &&& state.table == table
            &&& state.usage.counts == Map::<u8, u64>::empty()
            &&& state.usage.sizes == Map::<u8, u64>::empty()
            &&& state.usage.non_tx_count == 0
            &&& state.usage.non_tx_size == 0
        }),
{
    a_time_is_in_its_window(now, reset_seconds);
}

proof fn a_time_is_in_its_window(now: u64, reset_seconds: u64)
    requires
        reset_seconds > 0,
    ensures
        (now / reset_seconds) * reset_seconds <= now < (now / reset_seconds + 1) * reset_seconds,
{
    let (time, window) = (now as int, reset_seconds as int);
    vstd::arithmetic::div_mod::lemma_fundamental_div_mod(time, window);
    vstd::arithmetic::div_mod::lemma_mod_bound(time, window);
    vstd::arithmetic::mul::lemma_mul_is_commutative(window, time / window);
    vstd::arithmetic::mul::lemma_mul_is_distributive_add_other_way(window, time / window, 1);
}

/// Rolling to a time moves to its window. Within one window it changes nothing, and into another,
/// earlier or later, it clears every counter. Nothing else ever changes.
pub proof fn a_new_window_starts_from_nothing(state: LimiterState, now: u64)
    requires
        state.reset_seconds > 0,
    ensures
        ({
            let rolled = state.rolled(now);
            let inside = state.period * state.reset_seconds <= now < (state.period + 1) * state.reset_seconds;
            &&& rolled.period * state.reset_seconds <= now < (rolled.period + 1) * state.reset_seconds
            &&& rolled.direction == state.direction
            &&& rolled.reset_seconds == state.reset_seconds
            &&& rolled.factor == state.factor
            &&& rolled.table == state.table
            &&& inside ==> rolled.usage == state.usage
            &&& !inside ==> {
                &&& rolled.usage.counts == Map::<u8, u64>::empty()
                &&& rolled.usage.sizes == Map::<u8, u64>::empty()
                &&& rolled.usage.non_tx_count == 0
                &&& rolled.usage.non_tx_size == 0
            }
        }),
{
    a_time_is_in_its_window(now, state.reset_seconds);
    let (time, window, period) = (now as int, state.reset_seconds as int, state.period as int);
    if period * window <= time < (period + 1) * window {
        assert(time == window * period + (time - period * window)) by {
            vstd::arithmetic::mul::lemma_mul_is_commutative(window, period);
        }
        vstd::arithmetic::mul::lemma_mul_is_distributive_add_other_way(window, period, 1);
        vstd::arithmetic::div_mod::lemma_fundamental_div_mod_converse(time, window, period, time - period * window);
    }
}

/// An offered message is judged in the window of its time. It is charged there where it is admitted
/// or comes in from a peer, and otherwise it leaves no trace. The rest of the limiter never changes.
pub proof fn an_offer_is_judged_and_charged_in_its_window(state: LimiterState, now: u64, opcode: u8, len: nat)
    ensures
        ({
            let rolled = state.rolled(now);
            let after = state.after(now, opcode, len);
            let size: u64 = if len < 0x1_0000_0000 {
                len as u64
            } else {
                0xffff_ffff
            };
            let admission = state.verdict_at(now, opcode, len);
            &&& admission == verdict(state.table, state.factor, rolled.usage, opcode, size)
            &&& admission == Admission::Admitted || state.direction == Direction::Inbound ==> after.usage == charged(
                rolled.usage,
                state.table,
                opcode,
                size,
            )
            &&& admission != Admission::Admitted && state.direction == Direction::Outbound ==> after.usage
                == rolled.usage
            &&& after.period == now / state.reset_seconds
            &&& after.direction == state.direction
            &&& after.reset_seconds == state.reset_seconds
            &&& after.factor == state.factor
            &&& after.table == state.table
        }),
{
}

} // verus!
