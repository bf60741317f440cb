//! Correlation ids of the requests that are outstanding on a link.
//!
//! Each side of a link chooses its ids on its own, so a request of the peer routinely carries an
//! id that we are waiting on. A waiter therefore declares the opcodes that can answer it, and only
//! a frame under one of these completes it. Ids come from a cursor that only moves forward, so an
//! id that was given back is not issued again until the cursor has passed every other id.

use crate::dig_message;
use crate::dig_message::DigMessage;
use std::collections::HashMap;
use tokio::sync::{oneshot, OwnedSemaphorePermit};
use vstd::prelude::*;

verus! {

broadcast use vstd::std_specs::hash::group_hash_axioms;

/// The sending half of a `tokio` channel for one value.
#[verifier::external_type_specification]
#[verifier::external_body]
#[verifier::reject_recursive_types(T)]
pub struct ExSender<T>(oneshot::Sender<T>);

/// A permit of a `tokio` semaphore.
#[verifier::external_type_specification]
#[verifier::external_body]
pub struct ExOwnedSemaphorePermit(OwnedSemaphorePermit);

/// Whether the receiver of `sender` goes away before the sender is used up. A receiver that is
/// gone does not come back.
pub uninterp spec fn receiver_gone(sender: oneshot::Sender<DigMessage>) -> bool;

/// What `sender` puts into its channel: at most one message, because sending uses the sender up.
pub uninterp spec fn sent(sender: oneshot::Sender<DigMessage>) -> Seq<dig_message::Frame>;

/// Whether the receiver of `sender` was found in place when the sender was asked. It may go away
/// later.
pub uninterp spec fn found_open(sender: oneshot::Sender<DigMessage>) -> bool;

/// `oneshot::Sender::is_closed` of `tokio`: `true` only where the receiver is gone, and `false`
/// only where it is found in place. Which of the two is up to whoever holds the receiver.
#[verifier::external_body]
fn is_closed(sender: &oneshot::Sender<DigMessage>) -> (r: bool)
    ensures
        r ==> receiver_gone(*sender),
        !r ==> found_open(*sender),
{
    sender.is_closed()
}

/// `oneshot::Sender::send` of `tokio`: puts the message into the channel, or gives it back where
/// the receiver is gone. Which of the two is up to whoever holds the receiver.
#[verifier::external_body]
fn deliver(sender: oneshot::Sender<DigMessage>, message: DigMessage) -> (r: Result<(), DigMessage>)
    ensures
        r is Ok ==> sent(sender) == seq![message@],
        r matches Err(back) ==> back == message && receiver_gone(sender),
{
    sender.send(message)
}

// ---------------------------------------------------------------------------
// One request
// ---------------------------------------------------------------------------

/// One caller waiting for a reply.
///
/// The permit is held for as long as the request lives, so the permits that are out bound the
/// number of ids that are taken.
#[derive(Debug)]
pub struct Request {
    sender: oneshot::Sender<DigMessage>,
    expected: Vec<u8>,
    undeclared: Option<u8>,
    permit: OwnedSemaphorePermit,
}

/// What a request consists of.
#[verifier::ext_equal]
pub struct Waiter {
    /// Where the reply goes.
    pub sender: oneshot::Sender<DigMessage>,
    /// The opcodes that can answer the request.
    pub expected: Seq<u8>,
    /// The most recent opcode that arrived on the id without being one of these.
    pub undeclared: Option<u8>,
    /// The permit that the request holds.
    pub permit: OwnedSemaphorePermit,
}

impl View for Request {
    type V = Waiter;

    closed spec fn view(&self) -> Waiter {
        Waiter {
            sender: self.sender,
            expected: self.expected@,
            undeclared: self.undeclared,
            permit: self.permit,
        }
    }
}

impl Request {
    /// Hands the reply to the waiter: the message is what goes through its channel. A caller that
    /// has since given up is not an error: the message then comes back.
    pub fn send(self, message: DigMessage) -> (r: Result<(), DigMessage>)
        ensures
            match r {
                Ok(_) => sent(self@.sender) == seq![message@],
                Err(back) => back == message && receiver_gone(self@.sender),
            },
    {
        deliver(self.sender, message)
    }

    /// What the request reports once its deadline has passed: the opcodes it declared and the
    /// undeclared one that arrived, or `None` where the peer never answered.
    pub fn into_diagnosis(self) -> (r: Option<(Vec<u8>, u8)>)
        ensures
            match r {
                Some((expected, found)) => expected@ == self@.expected && self@.undeclared == Some(found),
                None => self@.undeclared is None,
            },
    {
        match self.undeclared {
            Some(found) => Some((self.expected, found)),
            None => None,
        }
    }
}

/// How an inbound frame relates to the request, if any, that holds its correlation id.
#[derive(Debug)]
pub enum Correlation {
    /// No live waiter holds the id: the frame belongs to the application.
    Unknown,
    /// A waiter declared the opcode: the frame is its answer.
    Answer(Request),
    /// A live waiter holds the id but never declared the opcode. The waiter stays parked, with
    /// the opcode recorded against it, and the frame belongs to the application.
    Undeclared,
}

// ---------------------------------------------------------------------------
// The model
// ---------------------------------------------------------------------------

/// The requests that are outstanding, and the cursor that the search for the next id starts from.
#[verifier::ext_equal]
pub struct Outstanding {
    /// The waiters, by correlation id.
    pub waiters: Map<u16, Waiter>,
    /// The cursor.
    pub next_id: u16,
}

/// How many requests may be outstanding at once. There is one id more, so one is always free.
pub const CAPACITY: usize = 65535;

/// The id behind `id`, round the end of the id space.
pub open spec fn following(id: u16) -> u16 {
    if id == u16::MAX {
        0
    } else {
        (id + 1) as u16
    }
}

/// How many steps lead from one id forward to another, round the end of the id space.
pub open spec fn steps(from: u16, to: u16) -> int {
    if from <= to {
        to - from
    } else {
        to - from + 0x1_0000
    }
}

/// Whether `id` is the first one from the cursor on that is not among `held`.
pub open spec fn first_free(held: Set<u16>, cursor: u16, id: u16) -> bool {
    &&& !held.contains(id)
    &&& forall|passed: u16| #[trigger] steps(cursor, passed) < steps(cursor, id) ==> held.contains(passed)
}

impl Outstanding {
    /// Whether each of `ids` is held by a request whose receiver is gone.
    pub open spec fn abandoned(self, ids: Seq<u16>) -> bool {
        forall|i: int|
            0 <= i < ids.len() ==> self.waiters.contains_key(#[trigger] ids[i]) && receiver_gone(
                self.waiters[ids[i]].sender,
            )
    }

    /// Whether the receiver of each request was found in place.
    pub open spec fn found_open(self) -> bool {
        forall|id: u16| #[trigger] self.waiters.contains_key(id) ==> found_open(self.waiters[id].sender)
    }

    /// Without the requests under `ids`.
    pub open spec fn without(self, ids: Seq<u16>) -> Outstanding {
        Outstanding { waiters: self.waiters.remove_keys(ids.to_set()), ..self }
    }

    /// With one more request under `id`, and the cursor behind it.
    pub open spec fn with(self, id: u16, waiter: Waiter) -> Outstanding {
        Outstanding { waiters: self.waiters.insert(id, waiter), next_id: following(id) }
    }

    /// Whether a frame with this id and opcode answers a request.
    pub open spec fn is_answered_by(self, id: u16, msg_type: u8) -> bool {
        self.waiters.contains_key(id) && self.waiters[id].expected.contains(msg_type)
    }

    /// With what a frame with this id and opcode leaves behind: an answered request is gone, an
    /// opcode that the request under the id did not declare is recorded, and nothing else changes.
    pub open spec fn after_frame(self, id: u16, msg_type: u8) -> Outstanding {
        if !self.waiters.contains_key(id) {
            self
        } else if self.is_answered_by(id, msg_type) {
            Outstanding { waiters: self.waiters.remove(id), ..self }
        } else {
            Outstanding {
                waiters: self.waiters.insert(
                    id,
                    Waiter { undeclared: Some(msg_type), ..self.waiters[id] },
                ),
                ..self
            }
        }
    }

    /// Without the request under `id`.
    pub open spec fn cancelled(self, id: u16) -> Outstanding {
        Outstanding { waiters: self.waiters.remove(id), ..self }
    }
}

// ---------------------------------------------------------------------------
// The map
// ---------------------------------------------------------------------------

/// The live requests on one link, by wire correlation id.
#[derive(Debug)]
pub struct RequestMap {
    items: HashMap<u16, Request>,
    next_id: u16,
}

impl View for RequestMap {
    type V = Outstanding;

    closed spec fn view(&self) -> Outstanding {
        Outstanding { waiters: self.items@.map_values(|request: Request| request@), next_id: self.next_id }
    }
}

impl RequestMap {
    /// No requests, with the cursor at 0.
    #[must_use]
    pub fn new() -> (r: Self)
        ensures
            r@ == (Outstanding { waiters: Map::empty(), next_id: 0 }),
    {
        let r = RequestMap { items: HashMap::new(), next_id: 0 };
        assert(r@.waiters =~= Map::empty());
        r
    }

    /// How many requests are outstanding.
    #[must_use]
    pub fn len(&self) -> (r: usize)
        ensures
            r == self@.waiters.len(),
    {
        assert(self@.waiters.dom() =~= self.items@.dom());
        self.items.len()
    }

    /// Whether no request is outstanding.
    #[must_use]
    pub fn is_empty(&self) -> (r: bool)
        ensures
            r == (self@.waiters.len() == 0),
    {
        self.len() == 0
    }

    /// The ids of requests whose callers are found to have dropped their receivers. Every request
    /// is asked for.
    fn closed_ids(&self) -> (r: Vec<u16>)
        ensures
            self@.abandoned(r@),
            self@.without(r@).found_open(),
    {
        let mut closed: Vec<u16> = Vec::new();
        for id in walk: self.items.keys()
            invariant
                self@.abandoned(closed@),
                walk.seq().unref().to_set() == self.items@.dom(),
                forall|k: int|
                    0 <= k < walk.index() ==> closed@.contains(*(#[trigger] walk.seq()[k])) || found_open(
                        self@.waiters[*walk.seq()[k]].sender,
                    ),
        {
            let ghost earlier = closed@;
            match self.items.get(id) {
                Some(request) => {
                    if is_closed(&request.sender) {
                        closed.push(*id);
                        assert(closed@[earlier.len() as int] == *id);
                    }
                },
                None => {
                    assert(walk.seq().unref()[walk.index() as int] == *id);
                },
            }
            assert forall|other: u16| earlier.contains(other) implies closed@.contains(other) by {
                let j = choose|j: int| 0 <= j < earlier.len() && earlier[j] == other;
                assert(closed@[j] == other);
            }
        }
        proof {
            let kept = self@.without(closed@);
            assert forall|id: u16| #[trigger] kept.waiters.contains_key(id) implies found_open(
                kept.waiters[id].sender,
            ) by {
                assert(self.items@.dom().contains(id));
            }
        }
        closed
    }

    /// Takes back the ids of callers that dropped their receivers. Those will never be woken.
    pub fn reclaim_abandoned(&mut self)
        ensures
            exists|closed: Seq<u16>|
                {
                    &&& final(self)@ == #[trigger] old(self)@.without(closed)
                    &&& old(self)@.abandoned(closed)
                },
            final(self)@.found_open(),
            final(self)@.next_id == old(self)@.next_id,
            forall|id: u16|
                old(self)@.waiters.contains_key(id) && !receiver_gone(old(self)@.waiters[id].sender)
                    ==> #[trigger] final(self)@.waiters.contains_key(id),
            forall|id: u16| #[trigger]
                final(self)@.waiters.contains_key(id) ==> old(self)@.waiters.contains_key(id) && final(self)@.waiters[id] == old(self)@.waiters[id] && found_open(old(self)@.waiters[id].sender),
            final(self)@ == old(self)@ || final(self)@.waiters.len() < old(self)@.waiters.len(),
    {
        let closed = self.closed_ids();
        self.reclaim(closed.as_slice());
        proof {
            let before = old(self)@.waiters.dom();
            let after = self@.waiters.dom();
            assert(before =~= old(self).items@.dom());
            if closed@.len() == 0 {
                assert(self@.waiters =~= old(self)@.waiters);
            } else {
                let first = closed@[0];
                assert(closed@.to_set().contains(first));
                assert(after.subset_of(before.remove(first)));
                vstd::set_lib::lemma_len_subset(after, before.remove(first));
            }
        }
    }

    /// Drops the requests under `ids`.
    pub fn reclaim(&mut self, ids: &[u16])
        ensures
            final(self)@ == old(self)@.without(ids@),
            final(self)@.next_id == old(self)@.next_id,
            forall|id: u16| #[trigger]
                final(self)@.waiters.contains_key(id) <==> old(self)@.waiters.contains_key(id) && !ids@.contains(id),
            forall|id: u16| #[trigger]
                final(self)@.waiters.contains_key(id) ==> final(self)@.waiters[id] == old(self)@.waiters[id],
    {
        let mut i: usize = 0;
        while i < ids.len()
            invariant
                i <= ids@.len(),
                self@ == old(self)@.without(ids@.take(i as int)),
            decreases ids@.len() - i,
        {
            let ghost before = self@;
            let id: u16 = ids[i];
            self.items.remove(&id);
            i = i + 1;
            proof {
                let earlier = ids@.take(i - 1);
                let done = ids@.take(i as int);
                assert(done =~= earlier.push(id));
                assert forall|k: u16| done.to_set().contains(k) == (earlier.to_set().contains(k) || k == id) by {
                    if earlier.contains(k) {
                        let j = choose|j: int| 0 <= j < earlier.len() && earlier[j] == k;
                        assert(done[j] == k);
                    }
                    if k == id {
                        assert(done[i - 1] == k);
                    }
                    if done.contains(k) && k != id {
                        let j = choose|j: int| 0 <= j < done.len() && done[j] == k;
                        assert(earlier[j] == k);
                    }
                }
                assert(self@.waiters =~= before.waiters.remove(id));
                assert(self@ =~= old(self)@.without(done));
            }
        }
        assert(ids@.take(i as int) =~= ids@);
    }

    /// Reserves an unused correlation id: the first from the cursor on that no request holds.
    pub fn register(&mut self, sender: oneshot::Sender<DigMessage>, expected: Vec<u8>, permit: OwnedSemaphorePermit) -> (id:
        u16)
        requires
            old(self)@.waiters.len() <= CAPACITY,
        ensures
            first_free(old(self)@.waiters.dom(), old(self)@.next_id, id),
            final(self)@ == old(self)@.with(
                id,
                (Waiter { sender, expected: expected@, undeclared: None, permit }),
            ),
            !old(self)@.waiters.contains_key(id),
            forall|passed: u16|
                (passed - old(self)@.next_id) % 0x1_0000 < (id - old(self)@.next_id) % 0x1_0000 ==> #[trigger] old(
                    self,
                )@.waiters.contains_key(passed),
            final(self)@.waiters == old(self)@.waiters.insert(
                id,
                (Waiter { sender, expected: expected@, undeclared: None, permit }),
            ),
            final(self)@.next_id == (id + 1) % 0x1_0000,
            final(self)@.waiters.len() == old(self)@.waiters.len() + 1,
            old(self)@.waiters.len() < CAPACITY ==> final(self)@.waiters.len() <= CAPACITY,
    {
        let ghost held = self@.waiters.dom();
        proof {
            assert(held =~= self.items@.dom());
            assert(held.finite());
        }
        let mut id: u16 = self.next_id;
        while self.items.contains_key(&id)
            invariant
                *self == *old(self),
                held == self.items@.dom(),
                held.finite(),
                held.len() <= CAPACITY,
                forall|passed: u16| #[trigger]
                    steps(self.next_id, passed) < steps(self.next_id, id) ==> held.contains(passed),
            decreases 0x1_0000 - steps(self.next_id, id),
        {
            proof {
                if steps(self.next_id, id) == 0xffff {
                    assert forall|other: u16| held.contains(other) by {
                        assert(steps(self.next_id, other) <= 0xffff);
                        if steps(self.next_id, other) == 0xffff {
                            assert(other == id);
                        }
                    }
                    the_id_space_is_larger_than_the_capacity(held);
                }
            }
            let ghost before = id;
            id = id.wrapping_add(1);
            proof {
                assert(id == following(before));
                assert forall|passed: u16| #[trigger]
                    steps(self.next_id, passed) < steps(self.next_id, id) implies held.contains(passed) by {
                    if steps(self.next_id, passed) == steps(self.next_id, before) {
                        assert(passed == before);
                    }
                }
            }
        }
        self.next_id = id.wrapping_add(1);
        let request = Request { sender, expected, undeclared: None, permit };
        self.items.insert(id, request);
        assert(self@.waiters =~= old(self)@.waiters.insert(id, request@));
        proof {
            assert(self@.waiters.dom() =~= held.insert(id));
            the_nearest_free_id_is_issued(held, old(self)@.next_id, id);
        }
        id
    }

    /// Reserves an unused correlation id, after taking back the ids of callers that dropped their
    /// receivers. Those will never be woken, and a long-lived link must not leak its way up to the
    /// end of the id space.
    ///
    /// A frame under an opcode other than the `expected` ones does not answer the request.
    ///
    /// No more than [`CAPACITY`] requests are outstanding afterwards, unless that many were before
    /// and every one of their receivers was found in place.
    pub fn insert(&mut self, sender: oneshot::Sender<DigMessage>, expected: Vec<u8>, permit: OwnedSemaphorePermit) -> (id:
        u16)
        requires
            old(self)@.waiters.len() <= CAPACITY,
        ensures
            exists|closed: Seq<u16>|
                {
                    let kept = #[trigger] old(self)@.without(closed);
                    &&& old(self)@.abandoned(closed)
                    &&& kept.found_open()
                    &&& first_free(kept.waiters.dom(), kept.next_id, id)
                    &&& final(self)@ == kept.with(
                        id,
                        (Waiter { sender, expected: expected@, undeclared: None, permit }),
                    )
                },
            old(self)@.waiters.contains_key(id) ==> receiver_gone(old(self)@.waiters[id].sender),
            final(self)@.waiters.contains_key(id),
            final(self)@.waiters[id] == (Waiter { sender, expected: expected@, undeclared: None, permit }),
            final(self)@.next_id == (id + 1) % 0x1_0000,
            forall|passed: u16|
                (passed - old(self)@.next_id) % 0x1_0000 < (id - old(self)@.next_id) % 0x1_0000 ==> #[trigger] old(
                    self,
                )@.waiters.contains_key(passed) && found_open(old(self)@.waiters[passed].sender),
            forall|other: u16|
                old(self)@.waiters.contains_key(other) && !receiver_gone(old(self)@.waiters[other].sender)
                    ==> #[trigger] final(self)@.waiters.contains_key(other),
            forall|other: u16| #[trigger]
                final(self)@.waiters.contains_key(other) && other != id ==> old(self)@.waiters.contains_key(other)
                    && final(self)@.waiters[other] == old(self)@.waiters[other] && found_open(
                    old(self)@.waiters[other].sender,
                ),
            old(self)@.waiters.len() < CAPACITY ==> final(self)@.waiters.len() <= CAPACITY,
            final(self)@.waiters.len() <= CAPACITY || (old(self)@.waiters.len() == CAPACITY && old(
                self,
            )@.found_open()),
    {
        self.reclaim_abandoned();
        let ghost kept = self@;
        let id: u16 = self.register(sender, expected, permit);
        assert forall|passed: u16|
            (passed - old(self)@.next_id) % 0x1_0000 < (id - old(self)@.next_id) % 0x1_0000 implies #[trigger] old(
                self,
            )@.waiters.contains_key(passed) && found_open(old(self)@.waiters[passed].sender) by {
            assert(kept.waiters.contains_key(passed));
        }
        id
    }

    /// Classifies an inbound frame against the waiter, if any, that holds `id`.
    ///
    /// A waiter is removed only when the frame answers it. An honest request of the peer that
    /// happens to carry the same id and a peer that answers with junk cannot be told apart here,
    /// so on a mismatch the waiter stays and the opcode is recorded against it.
    pub fn take(&mut self, id: u16, msg_type: u8) -> (r: Correlation)
        ensures
            final(self)@ == old(self)@.after_frame(id, msg_type),
            match r {
                Correlation::Unknown => !old(self)@.waiters.contains_key(id),
                Correlation::Answer(request) => old(self)@.is_answered_by(id, msg_type) && request@
                    == old(self)@.waiters[id],
                Correlation::Undeclared => old(self)@.waiters.contains_key(id) && !old(self)@.is_answered_by(
                    id,
                    msg_type,
                ),
            },
            final(self)@.next_id == old(self)@.next_id,
            !old(self)@.waiters.contains_key(id) ==> r is Unknown && final(self)@.waiters == old(self)@.waiters,
            old(self)@.waiters.contains_key(id) && old(self)@.waiters[id].expected.contains(msg_type) ==> {
                &&& r is Answer
                &&& r->Answer_0@ == old(self)@.waiters[id]
                &&& final(self)@.waiters == old(self)@.waiters.remove(id)
            },
            old(self)@.waiters.contains_key(id) && !old(self)@.waiters[id].expected.contains(msg_type) ==> {
                &&& r is Undeclared
                &&& final(self)@.waiters == old(self)@.waiters.insert(
                    id,
                    (Waiter { undeclared: Some(msg_type), ..old(self)@.waiters[id] }),
                )
            },
    {
        match self.items.remove(&id) {
            None => {
                assert(self.items@ =~= old(self).items@);
                Correlation::Unknown
            },
            Some(request) => {
                if holds(&request.expected, msg_type) {
                    assert(self@.waiters =~= old(self)@.waiters.remove(id));
                    Correlation::Answer(request)
                } else {
                    let Request { sender, expected, undeclared: _, permit } = request;
                    let recorded = Request { sender, expected, undeclared: Some(msg_type), permit };
                    self.items.insert(id, recorded);
                    assert(self@.waiters =~= old(self)@.waiters.insert(id, recorded@));
                    Correlation::Undeclared
                }
            },
        }
    }

    /// Takes the waiter under `id`, whatever it was waiting for: the id is free again at once.
    pub fn cancel(&mut self, id: u16) -> (r: Option<Request>)
        ensures
            final(self)@ == old(self)@.cancelled(id),
            final(self)@.waiters == old(self)@.waiters.remove(id),
            final(self)@.next_id == old(self)@.next_id,
            match r {
                Some(request) => old(self)@.waiters.contains_key(id) && request@ == old(self)@.waiters[id],
                None => !old(self)@.waiters.contains_key(id),
            },
    {
        let r = self.items.remove(&id);
        assert(self@.waiters =~= old(self)@.waiters.remove(id));
        r
    }
}

/// Whether `bytes` holds `byte`.
fn holds(bytes: &Vec<u8>, byte: u8) -> (r: bool)
    ensures
        r == bytes@.contains(byte),
{
    let mut i: usize = 0;
    while i < bytes.len()
        invariant
            i <= bytes@.len(),
            forall|j: int| 0 <= j < i ==> bytes@[j] != byte,
        decreases bytes@.len() - i,
    {
        if bytes[i] == byte {
            return true;
        }
        i = i + 1;
    }
    false
}

// ---------------------------------------------------------------------------
// Laws
// ---------------------------------------------------------------------------

/// Taking back the ids of abandoned requests leaves alone every request whose receiver is there.
pub proof fn a_live_request_keeps_its_id(before: Outstanding, ids: Seq<u16>, id: u16)
    requires
        before.abandoned(ids),
        before.waiters.contains_key(id),
        !receiver_gone(before.waiters[id].sender),
    ensures
        before.without(ids).waiters.contains_key(id),
        before.without(ids).waiters[id] == before.waiters[id],
{
}

/// The number of outstanding requests stays bounded: a request that is registered where fewer than
/// [`CAPACITY`] are outstanding leaves at most that many, and no frame, cancelling or taking back
/// adds one.
pub proof fn outstanding_requests_stay_bounded(
    before: Outstanding,
    id: u16,
    waiter: Waiter,
    msg_type: u8,
    ids: Seq<u16>,
)
    requires
        before.waiters.dom().finite(),
        before.waiters.len() <= CAPACITY,
    ensures
        before.waiters.len() < CAPACITY ==> before.with(id, waiter).waiters.len() <= CAPACITY,
        before.after_frame(id, msg_type).waiters.len() <= CAPACITY,
        before.cancelled(id).waiters.len() <= CAPACITY,
        before.without(ids).waiters.len() <= CAPACITY,
{
    let held = before.waiters.dom();
    assert(before.with(id, waiter).waiters.dom() =~= held.insert(id));
    if before.waiters.contains_key(id) {
        assert(held.insert(id) =~= held);
    }
    assert(before.cancelled(id).waiters.dom() =~= held.remove(id));
    assert(before.after_frame(id, msg_type).waiters.dom() =~= held || before.after_frame(id, msg_type).waiters.dom()
        =~= held.remove(id));
    let kept = before.without(ids).waiters.dom();
    assert(kept.subset_of(held));
    vstd::set_lib::lemma_len_subset(kept, held);
}

/// A request that was registered is answered by exactly the opcodes it declared.
pub proof fn a_request_is_answered_by_what_it_declared(before: Outstanding, id: u16, waiter: Waiter, msg_type: u8)
    ensures
        before.with(id, waiter).is_answered_by(id, msg_type) == waiter.expected.contains(msg_type),
{
}

/// A frame that answers no request leaves every waiter parked: what answered a request before
/// the frame still answers it.
pub proof fn an_undeclared_opcode_does_not_complete_a_waiter(
    before: Outstanding,
    id: u16,
    msg_type: u8,
    waiting: u16,
    reply: u8,
)
    requires
        !before.is_answered_by(id, msg_type),
    ensures
        before.after_frame(id, msg_type).is_answered_by(waiting, reply) == before.is_answered_by(waiting, reply),
        before.after_frame(id, msg_type).waiters.dom() == before.waiters.dom(),
{
    assert(before.after_frame(id, msg_type).waiters.dom() =~= before.waiters.dom());
}

/// The most recent undeclared opcode is the one that the request reports.
pub proof fn the_last_undeclared_opcode_is_kept(before: Outstanding, id: u16, first: u8, last: u8)
    requires
        before.waiters.contains_key(id),
        !before.is_answered_by(id, first),
        !before.is_answered_by(id, last),
    ensures
        before.after_frame(id, first).after_frame(id, last).waiters[id] == (Waiter {
            undeclared: Some(last),
            ..before.waiters[id]
        }),
{
}

/// A frame touches no request but the one under its own id.
pub proof fn a_frame_touches_one_request(before: Outstanding, id: u16, msg_type: u8, other: u16)
    requires
        other != id,
    ensures
        before.after_frame(id, msg_type).waiters.contains_key(other) == before.waiters.contains_key(other),
        before.waiters.contains_key(other) ==> before.after_frame(id, msg_type).waiters[other]
            == before.waiters[other],
{
}

/// A request is answered once: its id is free as soon as its answer has arrived.
pub proof fn a_request_is_answered_once(before: Outstanding, id: u16, msg_type: u8)
    requires
        before.is_answered_by(id, msg_type),
    ensures
        !before.after_frame(id, msg_type).waiters.contains_key(id),
{
}

/// Cancelling undoes registering, but for the cursor: the same requests are outstanding.
pub proof fn cancelling_gives_the_id_back(before: Outstanding, id: u16, waiter: Waiter)
    requires
        !before.waiters.contains_key(id),
    ensures
        before.with(id, waiter).cancelled(id) == (Outstanding { next_id: following(id), ..before }),
{
    assert(before.with(id, waiter).cancelled(id).waiters =~= before.waiters);
}

/// One id that was issued: the ids that were held at that moment, and the one that was picked.
pub struct Issue {
    /// The ids that requests held.
    pub held: Set<u16>,
    /// The id that was picked.
    pub id: u16,
}

/// The cursor after these issues, the first of which started from `cursor`.
pub open spec fn cursor_after(cursor: u16, issues: Seq<Issue>) -> u16 {
    if issues.len() == 0 {
        cursor
    } else {
        following(issues.last().id)
    }
}

/// Whether these ids can have been issued one after the other, whatever was given back in
/// between: each is the first free one from where the cursor stood.
pub open spec fn issued_in_turn(cursor: u16, issues: Seq<Issue>) -> bool {
    forall|i: int|
        0 <= i < issues.len() ==> first_free(
            (#[trigger] issues[i]).held,
            cursor_after(cursor, issues.take(i)),
            issues[i].id,
        )
}

/// An id is not issued again until every other id has been passed. Where `id` comes up once more
/// after it was issued, each other id was issued in between, or was held by a request when one was.
pub proof fn an_id_comes_back_last(id: u16, issues: Seq<Issue>, other: u16)
    requires
        issued_in_turn(following(id), issues),
        issues.len() > 0,
        issues.last().id == id,
        other != id,
    ensures
        exists|i: int|
            0 <= i < issues.len() && ((#[trigger] issues[i]).id == other || issues[i].held.contains(other)),
{
    if !exists|i: int|
        0 <= i < issues.len() && ((#[trigger] issues[i]).id == other || issues[i].held.contains(other)) {
        let last = issues.len() - 1;
        the_cursor_does_not_pass_a_free_id(id, issues, other, last);
        let cursor = cursor_after(following(id), issues.take(last));
        assert(issues[last].id == id);
        assert(first_free(issues[last].held, cursor, id));
        assert(!issues[last].held.contains(other));
        assert(steps(cursor, other) >= steps(cursor, id));
    }
}

/// As long as `other` is neither held nor issued, the cursor stays between `id` and `other`.
proof fn the_cursor_does_not_pass_a_free_id(id: u16, issues: Seq<Issue>, other: u16, n: int)
    requires
        issued_in_turn(following(id), issues),
        other != id,
        0 <= n <= issues.len(),
        forall|i: int| 0 <= i < issues.len() ==> (#[trigger] issues[i]).id != other && !issues[i].held.contains(other),
    ensures
        steps(following(id), cursor_after(following(id), issues.take(n))) <= steps(following(id), other),
    decreases n,
{
    if n > 0 {
        let cursor = cursor_after(following(id), issues.take(n - 1));
        the_cursor_does_not_pass_a_free_id(id, issues, other, n - 1);
        let issue = issues[n - 1];
        assert(first_free(issue.held, cursor, issue.id));
        assert(steps(cursor, other) >= steps(cursor, issue.id));
        assert(issues.take(n).last() == issue);
    }
}

/// A late reply is not misrouted. Once the last request that was registered has timed out and its
/// id was given back, the next request gets another id, and a reply to the first then belongs to
/// no request.
pub proof fn a_late_reply_is_not_misrouted(before: Outstanding, late: u16, id: u16, waiter: Waiter)
    requires
        before.waiters.dom().finite(),
        before.waiters.len() < CAPACITY,
        before.next_id == following(late),
        !before.waiters.contains_key(late),
        first_free(before.waiters.dom(), before.next_id, id),
    ensures
        id != late,
        !before.with(id, waiter).waiters.contains_key(late),
{
    if id == late {
        let held = before.waiters.dom();
        assert forall|other: u16| held.insert(late).contains(other) by {
            if other != late {
                assert(steps(before.next_id, other) < steps(before.next_id, late));
            }
        }
        the_id_space_is_larger_than_the_capacity(held.insert(late));
    }
}

/// No set that is smaller than the id space holds every id.
proof fn the_id_space_is_larger_than_the_capacity(held: Set<u16>)
    requires
        held.finite(),
        forall|id: u16| held.contains(id),
    ensures
        held.len() == 0x1_0000,
{
    let numbers = held.map(|id: u16| id as int);
    let range = vstd::set_lib::set_int_range(0, 0x1_0000);
    vstd::set_lib::lemma_int_range(0, 0x1_0000);
    assert(numbers =~= range) by {
        assert forall|n: int| range.contains(n) implies numbers.contains(n) by {
            assert(held.contains(n as u16) && (n as u16) as int == n);
        }
    }
    vstd::set_lib::lemma_map_size(held, numbers, |id: u16| id as int);
}

/// Ids go round: behind the last one comes 0, and the way from one id forward to another is their
/// difference modulo the size of the id space, which is one more than [`CAPACITY`].
pub proof fn ids_go_round(id: u16, from: u16, to: u16)
    ensures
        following(id) == (id + 1) % 0x1_0000,
        steps(from, to) == (to - from) % 0x1_0000,
        CAPACITY + 1 == 0x1_0000,
{
}

/// The first free id is the nearest one, going forward from the cursor: it is not held, and every
/// id on the way to it is.
pub proof fn the_nearest_free_id_is_issued(held: Set<u16>, cursor: u16, id: u16)
    ensures
        first_free(held, cursor, id) <==> !held.contains(id) && forall|passed: u16|
            (passed - cursor) % 0x1_0000 < (id - cursor) % 0x1_0000 ==> #[trigger] held.contains(passed),
{
    if first_free(held, cursor, id) {
        assert forall|passed: u16|
            (passed - cursor) % 0x1_0000 < (id - cursor) % 0x1_0000 implies #[trigger] held.contains(passed) by {
            ids_go_round(id, cursor, passed);
            ids_go_round(id, cursor, id);
            assert(steps(cursor, passed) < steps(cursor, id));
        }
    }
}

/// Registering adds one request and puts the cursor behind its id. Every other request stays as it
/// is.
pub proof fn registering_adds_one_request(before: Outstanding, id: u16, waiter: Waiter, other: u16)
    ensures
        before.with(id, waiter).waiters.contains_key(id),
        before.with(id, waiter).waiters[id] == waiter,
        before.with(id, waiter).next_id == (id + 1) % 0x1_0000,
        other != id ==> before.with(id, waiter).waiters.contains_key(other) == before.waiters.contains_key(other),
        other != id && before.waiters.contains_key(other) ==> before.with(id, waiter).waiters[other]
            == before.waiters[other],
{
}

/// Cancelling and taking back remove the requests under the given ids, and do nothing else.
pub proof fn only_the_given_ids_are_given_back(before: Outstanding, id: u16, ids: Seq<u16>, other: u16)
    ensures
        before.cancelled(id).next_id == before.next_id,
        before.cancelled(id).waiters.contains_key(other) <==> before.waiters.contains_key(other) && other != id,
        before.cancelled(id).waiters.contains_key(other) ==> before.cancelled(id).waiters[other]
            == before.waiters[other],
        before.without(ids).next_id == before.next_id,
        before.without(ids).waiters.contains_key(other) <==> before.waiters.contains_key(other) && !ids.contains(other),
        before.without(ids).waiters.contains_key(other) ==> before.without(ids).waiters[other]
            == before.waiters[other],
{
}

/// Whether a frame answers a request depends on what the request under its id declared, and on
/// nothing else: neither on the requests under other ids, nor on where the cursor stands, nor on
/// what else arrived on the id.
pub proof fn only_the_request_under_the_id_decides(one: Outstanding, two: Outstanding, id: u16, msg_type: u8)
    requires
        one.waiters.contains_key(id) == two.waiters.contains_key(id),
        one.waiters.contains_key(id) ==> one.waiters[id].expected == two.waiters[id].expected,
    ensures
        one.is_answered_by(id, msg_type) == two.is_answered_by(id, msg_type),
        one.is_answered_by(id, msg_type) ==> one.waiters.contains_key(id),
        one.waiters.contains_key(id) ==> one.is_answered_by(id, msg_type) == one.waiters[id].expected.contains(
            msg_type,
        ),
{
}

/// A request stays answerable by exactly the opcodes it declared, whatever happens under other ids:
/// a later request, a frame, a cancelling, or the taking back of ids.
pub proof fn a_request_is_answered_whatever_comes_between(
    before: Outstanding,
    id: u16,
    waiter: Waiter,
    msg_type: u8,
    other: u16,
    later: Waiter,
    opcode: u8,
    ids: Seq<u16>,
)
    requires
        other != id,
        !ids.contains(id),
    ensures
        ({
            let held = before.with(id, waiter);
            let answered = waiter.expected.contains(msg_type);
            &&& held.is_answered_by(id, msg_type) == answered
            &&& held.with(other, later).is_answered_by(id, msg_type) == answered
            &&& held.after_frame(other, opcode).is_answered_by(id, msg_type) == answered
            &&& held.cancelled(other).is_answered_by(id, msg_type) == answered
            &&& held.without(ids).is_answered_by(id, msg_type) == answered
        }),
{
}

/// A request stays answerable by exactly the opcodes it declared, however many requests are
/// registered under other ids after it.
pub proof fn a_request_is_answered_whatever_is_registered_later(
    states: Seq<Outstanding>,
    ids: Seq<u16>,
    waiters: Seq<Waiter>,
    id: u16,
    waiter: Waiter,
    msg_type: u8,
    n: int,
)
    requires
        0 <= n < states.len(),
        states.len() == ids.len() + 1,
        waiters.len() == ids.len(),
        states[0].waiters.contains_key(id),
        states[0].waiters[id] == waiter,
        forall|i: int|
            0 <= i < ids.len() ==> (#[trigger] ids[i]) != id && states[i + 1] == states[i].with(ids[i], waiters[i]),
    ensures
        states[n].waiters.contains_key(id),
        states[n].waiters[id] == waiter,
        states[n].is_answered_by(id, msg_type) == waiter.expected.contains(msg_type),
    decreases n,
{
    if n > 0 {
        a_request_is_answered_whatever_is_registered_later(states, ids, waiters, id, waiter, msg_type, n - 1);
        assert(ids[n - 1] != id);
    }
}

/// A frame takes the request that it answers, is noted on a request that did not declare its
/// opcode, and changes nothing where no request holds its id. The cursor stays where it is.
pub proof fn a_frame_is_taken_or_noted(before: Outstanding, id: u16, msg_type: u8)
    ensures
        ({
            let after = before.after_frame(id, msg_type);
            &&& after.next_id == before.next_id
            &&& !before.waiters.contains_key(id) ==> after.waiters == before.waiters
            &&& before.waiters.contains_key(id) ==> {
                if before.waiters[id].expected.contains(msg_type) {
                    after.waiters == before.waiters.remove(id)
                } else {
                    &&& after.waiters.dom() == before.waiters.dom()
                    &&& after.waiters.remove(id) == before.waiters.remove(id)
                    &&& after.waiters[id].undeclared == Some(msg_type)
                    &&& after.waiters[id].expected == before.waiters[id].expected
                    &&& after.waiters[id].sender == before.waiters[id].sender
                    &&& after.waiters[id].permit == before.waiters[id].permit
                }
            }
        }),
{
    let after = before.after_frame(id, msg_type);
    if before.waiters.contains_key(id) && !before.waiters[id].expected.contains(msg_type) {
        assert(after.waiters.dom() =~= before.waiters.dom());
        assert(after.waiters.remove(id) =~= before.waiters.remove(id));
    }
}

/// An id is abandoned where a request holds it whose receiver is gone, and receivers were found in
/// place where that holds of the receiver of every request.
pub proof fn abandoned_ids_are_those_of_receivers_that_are_gone(before: Outstanding, ids: Seq<u16>)
    ensures
        before.abandoned(ids) <==> forall|id: u16| #[trigger]
            ids.contains(id) ==> before.waiters.contains_key(id) && receiver_gone(before.waiters[id].sender),
        before.found_open() <==> forall|id: u16| #[trigger]
            before.waiters.contains_key(id) ==> found_open(before.waiters[id].sender),
{
    if forall|id: u16| #[trigger]
        ids.contains(id) ==> before.waiters.contains_key(id) && receiver_gone(before.waiters[id].sender) {
        assert forall|i: int| 0 <= i < ids.len() implies before.waiters.contains_key(#[trigger] ids[i])
            && receiver_gone(before.waiters[ids[i]].sender) by {
            assert(ids.contains(ids[i]));
        }
    }
}

} // verus!
