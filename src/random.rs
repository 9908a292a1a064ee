//! The entropy pool: a bounded queue of random bytes that seeds are drawn
//! from, with a hardware source preferred where the CPU has one.
use crossbeam_queue::ArrayQueue;
use rand_chacha::ChaCha20Rng;
use rand_core::{RngCore, SeedableRng};

use vstd::prelude::*;

verus! {

/// crossbeam's bounded lock-free queue, which holds the pool's bytes.
#[verifier::external_type_specification]
#[verifier::external_body]
#[verifier::reject_recursive_types(T)]
pub struct ExArrayQueue<T>(ArrayQueue<T>);

/// Capacity of the entropy pool in bytes.
pub const ENTROPY_POOL_SIZE: usize = 1024;

/// Bytes put into a new pool from the boot-time seed.
pub const INITIAL_ENTROPY: usize = 512;

/// Length of a generator seed in bytes.
pub const SEED_SIZE: usize = 32;

/// The bytes a queue holds, front first.
pub uninterp spec fn queued_bytes(q: ArrayQueue<u8>) -> Seq<u8>;

/// The capacity a queue was made with.
pub uninterp spec fn queue_capacity(q: ArrayQueue<u8>) -> nat;

/// The first `len` bytes of the ChaCha20 stream seeded from `seed`.
pub uninterp spec fn chacha_stream(seed: u64, len: nat) -> Seq<u8>;

/// The first 32-bit word of the ChaCha20 stream with key `seed`.
pub uninterp spec fn chacha_first_word(seed: Seq<u8>) -> u32;

/// Relies on crossbeam's ArrayQueue::new, which panics on a zero capacity:
/// an empty queue of capacity `cap`.
#[verifier::external_body]
fn new_byte_queue(cap: usize) -> (res: ArrayQueue<u8>)
    requires
        0 < cap <= ENTROPY_POOL_SIZE,
    ensures
        queued_bytes(res) == Seq::<u8>::empty(),
        queue_capacity(res) == cap,
{
    ArrayQueue::new(cap)
}

/// Relies on crossbeam's ArrayQueue::push_mut: appends at the back unless
/// the queue is full, in which case the byte comes back.
#[verifier::external_body]
fn push_byte(q: &mut ArrayQueue<u8>, byte: u8) -> (res: Result<(), u8>)
    ensures
        queue_capacity(*final(q)) == queue_capacity(*old(q)),
        queued_bytes(*old(q)).len() < queue_capacity(*old(q)) ==> {
            &&& res is Ok
            &&& queued_bytes(*final(q)) == queued_bytes(*old(q)).push(byte)
        },
        queued_bytes(*old(q)).len() >= queue_capacity(*old(q)) ==> {
            &&& res == Err::<(), u8>(byte)
            &&& queued_bytes(*final(q)) == queued_bytes(*old(q))
        },
{
    q.push_mut(byte)
}

/// Relies on crossbeam's ArrayQueue::pop_mut: removes the front byte, if any.
#[verifier::external_body]
fn pop_byte(q: &mut ArrayQueue<u8>) -> (res: Option<u8>)
    ensures
        queue_capacity(*final(q)) == queue_capacity(*old(q)),
        queued_bytes(*old(q)).len() == 0 ==> {
            &&& res is None
            &&& queued_bytes(*final(q)) == queued_bytes(*old(q))
        },
        queued_bytes(*old(q)).len() > 0 ==> {
            &&& res == Some(queued_bytes(*old(q))[0])
            &&& queued_bytes(*final(q)) == queued_bytes(*old(q)).drop_first()
        },
{
    q.pop_mut()
}

/// Relies on crossbeam's ArrayQueue::len: the number of bytes held.
#[verifier::external_body]
fn byte_queue_len(q: &ArrayQueue<u8>) -> (res: usize)
    ensures
        res == queued_bytes(*q).len(),
{
    q.len()
}

/// Relies on rand_core's SeedableRng::seed_from_u64 for ChaCha20 and on
/// RngCore::fill_bytes, which fills the whole buffer; the stream is a
/// function of the seed.
#[verifier::external_body]
fn stream_bytes(seed: u64, len: usize) -> (res: Vec<u8>)
    ensures
        res@ == chacha_stream(seed, len as nat),
        res@.len() == len,
{
    let mut bytes = vec![0u8; len];
    ChaCha20Rng::seed_from_u64(seed).fill_bytes(&mut bytes);
    bytes
}

/// Relies on rand_chacha's ChaCha20Rng::from_seed and RngCore::next_u32: the
/// first word of the stream, a function of the seed.
#[verifier::external_body]
fn first_stream_word(seed: [u8; 32]) -> (res: u32)
    ensures
        res == chacha_first_word(seed@),
{
    ChaCha20Rng::from_seed(seed).next_u32()
}

/// The four bytes of `w`, least significant first.
pub open spec fn le_bytes(w: u32) -> Seq<u8> {
    seq![
        (w % 256) as u8,
        (w / 256 % 256) as u8,
        (w / 65536 % 256) as u8,
        (w / 16777216 % 256) as u8,
    ]
}

/// The key that stands in for a word the hardware did not give: the 32
/// oldest bytes of the pool, or all ones when it holds fewer.
pub open spec fn fallback_key(pool: Seq<u8>) -> Seq<u8> {
    if pool.len() >= SEED_SIZE {
        pool.take(SEED_SIZE as int)
    } else {
        Seq::new(SEED_SIZE as nat, |i: int| 1u8)
    }
}

/// The pool after a fallback key was drawn from it.
pub open spec fn after_fallback(pool: Seq<u8>) -> Seq<u8> {
    if pool.len() >= SEED_SIZE {
        pool.skip(SEED_SIZE as int)
    } else {
        pool
    }
}

/// The seed bytes built from the first `n` hardware words, and the pool that
/// is left: a present word gives its own bytes, a missing one the first word
/// of the ChaCha20 stream keyed with a fallback key.
pub open spec fn seed_progress(pool: Seq<u8>, words: Seq<Option<u32>>, n: nat) -> (Seq<u8>, Seq<u8>)
    decreases n,
{
    if n == 0 {
        (Seq::empty(), pool)
    } else {
        let (bytes, left) = seed_progress(pool, words, (n - 1) as nat);
        match words[n - 1] {
            Some(w) => (bytes + le_bytes(w), left),
            None => (
                bytes + le_bytes(chacha_first_word(fallback_key(left))),
                after_fallback(left),
            ),
        }
    }
}

/// The key of all ones.
fn all_ones_key() -> (res: [u8; 32])
    ensures
        res@ == Seq::new(SEED_SIZE as nat, |i: int| 1u8),
{
    let mut key = [1u8; 32];
    let mut j: usize = 0;
    while j < 32
        invariant
            j <= 32,
            forall|t: int| 0 <= t < j ==> key@[t] == 1u8,
        decreases 32 - j,
    {
        key[j] = 1;
        j = j + 1;
    }
    proof {
        assert(key@ =~= Seq::new(SEED_SIZE as nat, |i: int| 1u8));
    }
    key
}

/// A bounded pool of random bytes.
pub struct EntropyPool {
    queue: ArrayQueue<u8>,
}

impl EntropyPool {
    /// The bytes in the pool, oldest first.
    pub closed spec fn bytes(&self) -> Seq<u8> {
        queued_bytes(self.queue)
    }

    pub closed spec fn wf(&self) -> bool {
        &&& queue_capacity(self.queue) == ENTROPY_POOL_SIZE
        &&& queued_bytes(self.queue).len() <= ENTROPY_POOL_SIZE
    }

    /// An empty pool.
    pub fn new() -> (res: Self)
        ensures
            res.wf(),
            res.bytes() == Seq::<u8>::empty(),
    {
        EntropyPool { queue: new_byte_queue(ENTROPY_POOL_SIZE) }
    }

    /// Number of bytes in the pool.
    pub fn len(&self) -> (res: usize)
        ensures
            res == self.bytes().len(),
    {
        byte_queue_len(&self.queue)
    }

    /// Appends `bytes` until the pool is full; what does not fit is dropped.
    pub fn add_bytes_to_entropy_pool(&mut self, bytes: &[u8])
        requires
            old(self).wf(),
        ensures
            final(self).wf(),
            final(self).bytes() == old(self).bytes() + bytes@.take(
                vstd::math::min(bytes@.len() as int, ENTROPY_POOL_SIZE - old(self).bytes().len()),
            ),
    {
        let ghost start = self.bytes();
        let ghost room = ENTROPY_POOL_SIZE - start.len();
        let mut i: usize = 0;
        while i < bytes.len()
            invariant
                self.wf(),
                start == old(self).bytes(),
                room == ENTROPY_POOL_SIZE - start.len(),
                i <= bytes@.len(),
                i <= room,
                self.bytes() == start + bytes@.take(i as int),
            ensures
                self.wf(),
                self.bytes() == start + bytes@.take(i as int),
                i == bytes@.len() || i == room,
                i <= bytes@.len(),
                i <= room,
            decreases bytes@.len() - i,
        {
            match push_byte(&mut self.queue, bytes[i]) {
                Ok(()) => {},
                Err(_) => {
                    proof {
                        assert(i == room);
                    }
                    break ;
                },
            }
            proof {
                assert(bytes@.take(i as int + 1) =~= bytes@.take(i as int).push(bytes@[i as int]));
            }
            i = i + 1;
        }
        proof {
            assert(i == vstd::math::min(bytes@.len() as int, room));
        }
    }

    /// Takes the 32 oldest bytes as a seed; `None`, taking nothing, when the
    /// pool holds fewer.
    pub fn prng_seed(&mut self) -> (res: Option<[u8; 32]>)
        requires
            old(self).wf(),
        ensures
            final(self).wf(),
            old(self).bytes().len() < SEED_SIZE ==> {
                &&& res is None
                &&& final(self).bytes() == old(self).bytes()
            },
            old(self).bytes().len() >= SEED_SIZE ==> {
                &&& res is Some
                &&& res->0@ == old(self).bytes().take(SEED_SIZE as int)
                &&& final(self).bytes() == old(self).bytes().skip(SEED_SIZE as int)
            },
    {
        if byte_queue_len(&self.queue) < SEED_SIZE {
            return None;
        }
        let ghost start = self.bytes();
        let mut seed = [0u8; 32];
        let mut i: usize = 0;
        while i < SEED_SIZE
            invariant
                self.wf(),
                start == old(self).bytes(),
                start.len() >= SEED_SIZE,
                i <= SEED_SIZE,
                self.bytes() == start.skip(i as int),
                forall|j: int| 0 <= j < i ==> seed@[j] == start[j],
            decreases SEED_SIZE - i,
        {
            let byte = match pop_byte(&mut self.queue) {
                Some(b) => b,
                None => {
                    proof {
                        assert(false);
                    }
                    0
                },
            };
            proof {
                assert(start.skip(i as int).drop_first() =~= start.skip(i as int + 1));
            }
            seed[i] = byte;
            i = i + 1;
        }
        proof {
            assert(seed@ =~= start.take(SEED_SIZE as int));
        }
        Some(seed)
    }

    /// Draws a seed: from the hardware words where `hardware` holds them (a
    /// word that the hardware failed to give is replaced by the first word of
    /// the ChaCha20 stream keyed with a seed from the pool, or with ones where
    /// the pool ran dry), else from the pool alone.
    pub fn get_secure_seed(&mut self, hardware: Option<[Option<u32>; 8]>) -> (res: Option<[u8; 32]>)
        requires
            old(self).wf(),
        ensures
            final(self).wf(),
            hardware is None ==> {
                &&& old(self).bytes().len() < SEED_SIZE ==> {
                    &&& res is None
                    &&& final(self).bytes() == old(self).bytes()
                }
                &&& old(self).bytes().len() >= SEED_SIZE ==> {
                    &&& res is Some
                    &&& res->0@ == old(self).bytes().take(SEED_SIZE as int)
                    &&& final(self).bytes() == old(self).bytes().skip(SEED_SIZE as int)
                }
            },
            hardware matches Some(words) ==> {
                &&& res is Some
                &&& forall|i: int| 0 <= i < 8 ==> (#[trigger] words@[i] matches Some(w)
                    ==> res->0@.subrange(4 * i, 4 * i + 4) == le_bytes(w))
                &&& (forall|i: int| 0 <= i < 8 ==> #[trigger] words@[i] is Some)
                    ==> final(self).bytes() == old(self).bytes()
                &&& res->0@ == seed_progress(old(self).bytes(), words@, 8).0
                &&& final(self).bytes() == seed_progress(old(self).bytes(), words@, 8).1
            },
    {
        match hardware {
            None => self.prng_seed(),
            Some(words) => {
                let mut seed = [0u8; 32];
                let mut i: usize = 0;
                while i < 8
                    invariant
                        self.wf(),
                        i <= 8,
                        forall|k: int|
                            0 <= k < i ==> (#[trigger] words@[k] matches Some(w) ==> seed@.subrange(
                                4 * k,
                                4 * k + 4,
                            ) == le_bytes(w)),
                        (forall|k: int| 0 <= k < i ==> #[trigger] words@[k] is Some) ==> self.bytes()
                            == old(self).bytes(),
                        seed_progress(old(self).bytes(), words@, i as nat).0.len() == 4 * i,
                        seed@.take(4 * i) == seed_progress(old(self).bytes(), words@, i as nat).0,
                        self.bytes() == seed_progress(old(self).bytes(), words@, i as nat).1,
                    decreases 8 - i,
                {
                    let ghost left = self.bytes();
                    let word = match words[i] {
                        Some(w) => w,
                        None => {
                            let key = match self.prng_seed() {
                                Some(s) => s,
                                None => all_ones_key(),
                            };
                            first_stream_word(key)
                        },
                    };
                    let ghost before = seed@;
                    seed[4 * i] = (word % 256) as u8;
                    seed[4 * i + 1] = (word / 256 % 256) as u8;
                    seed[4 * i + 2] = (word / 65536 % 256) as u8;
                    seed[4 * i + 3] = (word / 16777216 % 256) as u8;
                    proof {
                        assert forall|k: int|
                            0 <= k <= i implies (#[trigger] words@[k] matches Some(w) ==> seed@.subrange(
                            4 * k,
                            4 * k + 4,
                        ) == le_bytes(w)) by {
                            if k < i {
                                assert(seed@.subrange(4 * k, 4 * k + 4) =~= before.subrange(
                                    4 * k,
                                    4 * k + 4,
                                ));
                            } else {
                                assert(seed@.subrange(4 * k, 4 * k + 4) =~= le_bytes(word));
                            }
                        }
                        let prev = seed_progress(old(self).bytes(), words@, i as nat);
                        let next = seed_progress(old(self).bytes(), words@, (i + 1) as nat);
                        match words@[i as int] {
                            Some(w) => {
                                assert(word == w);
                            },
                            None => {
                                assert(word == chacha_first_word(fallback_key(left)));
                            },
                        }
                        assert(next.0 == prev.0 + le_bytes(word));
                        assert(seed@.take(4 * i + 4) =~= before.take(4 * i) + le_bytes(word));
                    }
                    i = i + 1;
                }
                proof {
                    assert(seed@.take(32) =~= seed@);
                }
                Some(seed)
            },
        }
    }
}

/// A pool filled with the first bytes of the ChaCha20 stream seeded from the
/// boot time `timestamp`.
pub fn create_entropy_pool(timestamp: u64) -> (res: EntropyPool)
    ensures
        res.wf(),
        res.bytes() == chacha_stream(timestamp, INITIAL_ENTROPY as nat),
{
    let bytes = stream_bytes(timestamp, INITIAL_ENTROPY);
    let mut pool = EntropyPool::new();
    pool.add_bytes_to_entropy_pool(bytes.as_slice());
    proof {
        assert(bytes@.take(INITIAL_ENTROPY as int) =~= bytes@);
        assert(Seq::<u8>::empty() + bytes@ =~= bytes@);
    }
    pool
}

} // verus!
