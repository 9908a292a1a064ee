//! Tasks: uniquely identified units of cooperative work, and the ready queue
//! their identifiers travel through.
use crossbeam_queue::SegQueue;
use rand_chacha::ChaCha20Rng;
use rand_core::RngCore;
use uuid::{Builder, Variant, Version};

use vstd::prelude::*;

use crate::waker::TaskWaker;

pub mod executor;
pub mod park;

verus! {

/// The lock-free queue of crossbeam that carries ready task identifiers.
#[verifier::external_type_specification]
#[verifier::external_body]
#[verifier::reject_recursive_types(T)]
pub struct ExSegQueue<T>(SegQueue<T>);

/// The ChaCha20 generator of rand_chacha that task identifiers are drawn from.
#[verifier::external_type_specification]
#[verifier::external_body]
pub struct ExChaCha20Rng(ChaCha20Rng);

/// Relies on crossbeam's SegQueue::new: an empty unbounded queue.
#[verifier::external_body]
pub(crate) fn new_ready_queue() -> SegQueue<TaskId> {
    SegQueue::new()
}

/// Relies on crossbeam's SegQueue::push, which never fails: the queue is
/// unbounded.
#[verifier::external_body]
pub(crate) fn push_ready(queue: &SegQueue<TaskId>, id: TaskId) {
    queue.push(id)
}

/// Relies on crossbeam's SegQueue::pop. Other contexts may push at any time,
/// so nothing is promised of the result.
#[verifier::external_body]
pub(crate) fn pop_ready(queue: &SegQueue<TaskId>) -> Option<TaskId> {
    queue.pop()
}

/// Relies on crossbeam's SegQueue::len: a snapshot that others may change.
#[verifier::external_body]
pub(crate) fn ready_len(queue: &SegQueue<TaskId>) -> usize {
    queue.len()
}

/// Relies on crossbeam's SegQueue::is_empty: a snapshot that others may change.
#[verifier::external_body]
pub(crate) fn ready_is_empty(queue: &SegQueue<TaskId>) -> bool {
    queue.is_empty()
}

/// Relies on rand_core's RngCore::fill_bytes for ChaCha20: sixteen bytes of
/// the generator's stream, about which nothing is promised.
#[verifier::external_body]
fn draw_bytes(rng: &mut ChaCha20Rng) -> [u8; 16] {
    let mut bytes = [0u8; 16];
    rng.fill_bytes(&mut bytes);
    bytes
}

/// Relies on uuid's Builder: set_variant(RFC4122) rewrites the top two bits
/// of byte 8, set_version(Random) the top four bits of byte 6, and the other
/// bytes stay as given.
#[verifier::external_body]
fn random_uuid_bytes(bytes: [u8; 16]) -> (res: [u8; 16])
    ensures
        forall|i: int| 0 <= i < 16 && i != 6 && i != 8 ==> res@[i] == bytes@[i],
        res@[6] == (bytes@[6] & 0x0f) | 0x40,
        res@[8] == (bytes@[8] & 0x3f) | 0x80,
{
    *Builder::from_bytes(bytes).set_variant(Variant::RFC4122).set_version(
        Version::Random,
    ).build().as_bytes()
}

/// The bytes of a random (version 4, RFC 4122 variant) UUID built from `b`.
pub open spec fn uuid_v4_bytes(b: Seq<u8>) -> Seq<u8> {
    b.update(6, (b[6] & 0x0f) | 0x40).update(8, (b[8] & 0x3f) | 0x80)
}

/// The big-endian value of `b`.
pub open spec fn be_value(b: Seq<u8>) -> nat
    decreases b.len(),
{
    if b.len() == 0 {
        0
    } else {
        (be_value(b.drop_last()) * 256 + b.last()) as nat
    }
}

/// 256 to the power `n`.
pub open spec fn byte_power(n: nat) -> nat
    decreases n,
{
    if n == 0 {
        1
    } else {
        256 * byte_power((n - 1) as nat)
    }
}

proof fn lemma_byte_power_monotone(i: nat, j: nat)
    requires
        i <= j,
    ensures
        1 <= byte_power(i) <= byte_power(j),
    decreases j,
{
    if j > 0 {
        if i < j {
            lemma_byte_power_monotone(i, (j - 1) as nat);
        } else {
            lemma_byte_power_monotone((i - 1) as nat, (j - 1) as nat);
        }
    }
}

proof fn lemma_be_value_bound(b: Seq<u8>, bound: nat)
    requires
        bound > 0,
        be_value(b.drop_last()) < bound,
        b.len() > 0,
    ensures
        be_value(b) < bound * 256,
{
    assert(be_value(b.drop_last()) * 256 + b.last() < bound * 256) by (nonlinear_arith)
        requires
            be_value(b.drop_last()) < bound,
            b.last() < 256,
    ;
}

/// The identity of a task: a random 128-bit UUID.
#[derive(Clone, Copy, Debug, PartialEq, Eq, PartialOrd, Ord, Hash, Structural)]
pub struct TaskId(u128);

impl TaskId {
    /// The identifier as a number.
    pub closed spec fn value(&self) -> u128 {
        self.0
    }

    /// Builds the identifier of the random UUID made from `bytes`.
    pub fn from_random_bytes(bytes: [u8; 16]) -> (res: TaskId)
        ensures
            res.value() == be_value(uuid_v4_bytes(bytes@)),
    {
        let b = random_uuid_bytes(bytes);
        proof {
            assert(b@ =~= uuid_v4_bytes(bytes@));
        }
        let mut acc: u128 = 0;
        let mut i: usize = 0;
        proof {
            reveal_with_fuel(byte_power, 17);
            assert(byte_power(16) == 0x1_0000_0000_0000_0000_0000_0000_0000_0000);
            assert(b@.take(0) =~= Seq::<u8>::empty());
        }
        while i < 16
            invariant
                0 <= i <= 16,
                acc == be_value(b@.take(i as int)),
                acc < byte_power(i as nat),
                byte_power(16) == 0x1_0000_0000_0000_0000_0000_0000_0000_0000,
            decreases 16 - i,
        {
            proof {
                let t = b@.take(i as int + 1);
                assert(t.drop_last() =~= b@.take(i as int));
                assert(t.last() == b@[i as int]);
                lemma_be_value_bound(t, byte_power(i as nat));
                assert(byte_power(i as nat + 1) == 256 * byte_power(i as nat));
                lemma_byte_power_monotone(i as nat + 1, 16);
            }
            acc = acc * 256 + b[i] as u128;
            i = i + 1;
        }
        proof {
            assert(b@.take(16) =~= b@);
        }
        TaskId(acc)
    }

    /// Draws a fresh identifier from `rng`: the random UUID of sixteen bytes
    /// of its stream.
    pub fn new(rng: &mut ChaCha20Rng) -> (res: TaskId)
        ensures
            exists|b: Seq<u8>| b.len() == 16 && res.value() == be_value(uuid_v4_bytes(b)),
    {
        let bytes = draw_bytes(rng);
        let res = TaskId::from_random_bytes(bytes);
        proof {
            assert(bytes@.len() == 16);
        }
        res
    }

    /// The identifier as a number.
    pub fn as_u128(&self) -> (res: u128)
        ensures
            res == self.value(),
    {
        self.0
    }
}

/// What a poll of a task's body found.
#[derive(Clone, Copy, Debug, PartialEq, Eq, Structural)]
pub enum TaskPoll {
    /// The body has run to completion.
    Ready,
    /// The body suspended; it runs again once its waker is invoked.
    Pending,
}

/// A resumable computation that a task runs: each poll resumes it from its
/// last suspension point. Before returning `Pending` the body arranges for
/// `waker` to be invoked once it can make progress.
pub trait TaskBody {
    fn poll(&mut self, waker: &TaskWaker) -> TaskPoll;
}

/// A body together with the identity it is scheduled under.
pub struct Task<T> {
    id: TaskId,
    body: T,
}

impl<T> Task<T> {
    pub closed spec fn spec_id(&self) -> TaskId {
        self.id
    }

    pub closed spec fn spec_body(&self) -> T {
        self.body
    }

    /// Wraps `body` under a fresh identifier drawn from `rng`.
    pub fn new(body: T, rng: &mut ChaCha20Rng) -> (res: Task<T>)
        ensures
            res.spec_body() == body,
            exists|b: Seq<u8>| b.len() == 16 && res.spec_id().value() == be_value(uuid_v4_bytes(b)),
    {
        Task { id: TaskId::new(rng), body }
    }

    /// Wraps `body` under the given identifier.
    pub fn with_id(id: TaskId, body: T) -> (res: Task<T>)
        ensures
            res.spec_id() == id,
            res.spec_body() == body,
    {
        Task { id, body }
    }

    pub fn id(&self) -> (res: TaskId)
        ensures
            res == self.spec_id(),
    {
        self.id
    }
}

impl<T: TaskBody> Task<T> {
    /// Resumes the body once.
    pub fn poll(&mut self, waker: &TaskWaker) -> (res: TaskPoll)
        ensures
            final(self).spec_id() == old(self).spec_id(),
    {
        self.body.poll(waker)
    }
}

} // verus!
