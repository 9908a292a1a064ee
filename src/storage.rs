//! Fixed-size words used as storage for bits.
use vstd::prelude::*;

verus! {

/// Number of `true` entries of `bits`.
pub open spec fn ones(bits: Seq<bool>) -> nat
    decreases bits.len(),
{
    if bits.len() == 0 {
        0
    } else {
        ones(bits.drop_last()) + if bits.last() {
            1nat
        } else {
            0nat
        }
    }
}

/// A fixed-size value whose bits can be read and written one by one. Bit 0
/// is the least significant.
pub trait BitStorage: Sized {
    /// Number of bits one value holds.
    spec fn spec_bits() -> nat;

    /// Whether bit `index` is set.
    spec fn spec_bit(&self, index: int) -> bool;

    fn bits_in_storage() -> (res: usize)
        ensures
            res == Self::spec_bits(),
            res > 0,
    ;

    /// The value with no bit set.
    fn empty() -> (res: Self)
        ensures
            forall|i: int| 0 <= i < Self::spec_bits() ==> !#[trigger] res.spec_bit(i),
    ;

    /// Whether bit `index` is set.
    fn get_bit(&self, index: usize) -> (res: bool)
        requires
            index < Self::spec_bits(),
        ensures
            res == self.spec_bit(index as int),
    ;

    /// Sets bit `index`; true when it was clear before.
    fn set_bit(&mut self, index: usize) -> (res: bool)
        requires
            index < Self::spec_bits(),
        ensures
            res == !old(self).spec_bit(index as int),
            final(self).spec_bit(index as int),
            forall|j: int|
                0 <= j < Self::spec_bits() && j != index ==> #[trigger] final(self).spec_bit(j)
                    == old(self).spec_bit(j),
    ;

    /// Clears bit `index`; true when it was set before.
    fn clear_bit(&mut self, index: usize) -> (res: bool)
        requires
            index < Self::spec_bits(),
        ensures
            res == old(self).spec_bit(index as int),
            !final(self).spec_bit(index as int),
            forall|j: int|
                0 <= j < Self::spec_bits() && j != index ==> #[trigger] final(self).spec_bit(j)
                    == old(self).spec_bit(j),
    ;

    /// Clears every bit.
    fn clear_all(&mut self)
        ensures
            forall|i: int| 0 <= i < Self::spec_bits() ==> !#[trigger] final(self).spec_bit(i),
    {
        *self = Self::empty();
    }

    /// Whether no bit is set.
    fn is_empty(&self) -> (res: bool)
        ensures
            res == forall|i: int| 0 <= i < Self::spec_bits() ==> !#[trigger] self.spec_bit(i),
    {
        let n = Self::bits_in_storage();
        let mut i: usize = 0;
        while i < n
            invariant
                n == Self::spec_bits(),
                i <= n,
                forall|j: int| 0 <= j < i ==> !#[trigger] self.spec_bit(j),
            decreases n - i,
        {
            if self.get_bit(i) {
                return false;
            }
            i = i + 1;
        }
        true
    }

    /// Number of set bits.
    fn count_ones(&self) -> (res: usize)
        ensures
            res == ones(Seq::new(Self::spec_bits(), |i: int| self.spec_bit(i))),
    {
        let ghost all = Seq::new(Self::spec_bits(), |i: int| self.spec_bit(i));
        let n = Self::bits_in_storage();
        let mut count: usize = 0;
        let mut i: usize = 0;
        while i < n
            invariant
                n == Self::spec_bits(),
                i <= n,
                all == Seq::new(Self::spec_bits(), |i: int| self.spec_bit(i)),
                count == ones(all.take(i as int)),
                count <= i,
            decreases n - i,
        {
            proof {
                assert(all.take(i as int + 1).drop_last() =~= all.take(i as int));
            }
            if self.get_bit(i) {
                count = count + 1;
            }
            i = i + 1;
        }
        proof {
            assert(all.take(n as int) =~= all);
        }
        count
    }

    /// Index of the lowest set bit.
    fn first_bit_set(&self) -> (res: Option<usize>)
        ensures
            match res {
                Some(i) => i < Self::spec_bits() && self.spec_bit(i as int) && forall|j: int|
                    0 <= j < i ==> !#[trigger] self.spec_bit(j),
                None => forall|j: int| 0 <= j < Self::spec_bits() ==> !#[trigger] self.spec_bit(j),
            },
    {
        let n = Self::bits_in_storage();
        let mut i: usize = 0;
        while i < n
            invariant
                n == Self::spec_bits(),
                i <= n,
                forall|j: int| 0 <= j < i ==> !#[trigger] self.spec_bit(j),
            decreases n - i,
        {
            if self.get_bit(i) {
                return Some(i);
            }
            i = i + 1;
        }
        None
    }

    /// Index of the lowest clear bit.
    fn first_empty_bit(&self) -> (res: Option<usize>)
        ensures
            match res {
                Some(i) => i < Self::spec_bits() && !self.spec_bit(i as int) && forall|j: int|
                    0 <= j < i ==> #[trigger] self.spec_bit(j),
                None => forall|j: int| 0 <= j < Self::spec_bits() ==> #[trigger] self.spec_bit(j),
            },
    {
        let n = Self::bits_in_storage();
        let mut i: usize = 0;
        while i < n
            invariant
                n == Self::spec_bits(),
                i <= n,
                forall|j: int| 0 <= j < i ==> #[trigger] self.spec_bit(j),
            decreases n - i,
        {
            if !self.get_bit(i) {
                return Some(i);
            }
            i = i + 1;
        }
        None
    }

    /// Index of the highest set bit.
    fn last_bit_set(&self) -> (res: Option<usize>)
        ensures
            match res {
                Some(i) => i < Self::spec_bits() && self.spec_bit(i as int) && forall|j: int|
                    i < j < Self::spec_bits() ==> !#[trigger] self.spec_bit(j),
                None => forall|j: int| 0 <= j < Self::spec_bits() ==> !#[trigger] self.spec_bit(j),
            },
    {
        let n = Self::bits_in_storage();
        let mut i: usize = n;
        while i > 0
            invariant
                n == Self::spec_bits(),
                i <= n,
                forall|j: int| i <= j < n ==> !#[trigger] self.spec_bit(j),
            decreases i,
        {
            if self.get_bit(i - 1) {
                return Some(i - 1);
            }
            i = i - 1;
        }
        None
    }

    /// Index of the highest clear bit.
    fn last_empty_bit(&self) -> (res: Option<usize>)
        ensures
            match res {
                Some(i) => i < Self::spec_bits() && !self.spec_bit(i as int) && forall|j: int|
                    i < j < Self::spec_bits() ==> #[trigger] self.spec_bit(j),
                None => forall|j: int| 0 <= j < Self::spec_bits() ==> #[trigger] self.spec_bit(j),
            },
    {
        let n = Self::bits_in_storage();
        let mut i: usize = n;
        while i > 0
            invariant
                n == Self::spec_bits(),
                i <= n,
                forall|j: int| i <= j < n ==> #[trigger] self.spec_bit(j),
            decreases i,
        {
            if !self.get_bit(i - 1) {
                return Some(i - 1);
            }
            i = i - 1;
        }
        None
    }
}

impl BitStorage for u8 {
    open spec fn spec_bits() -> nat {
        8
    }

    open spec fn spec_bit(&self, index: int) -> bool {
        (*self >> (index as u8)) & 1 == 1
    }

    fn bits_in_storage() -> (res: usize) {
        8
    }

    fn empty() -> (res: u8) {
        assert(forall|i: u8| i < 8 ==> #[trigger] ((0u8 >> i) & 1) == 0) by (bit_vector);
        0
    }

    fn get_bit(&self, index: usize) -> (res: bool) {
        let i = index as u8;
        let x = *self;
        assert(((x & (1u8 << i)) != 0) == ((x >> i) & 1 == 1)) by (bit_vector)
            requires
                i < 8,
        ;
        (x & (1u8 << i)) != 0
    }

    fn set_bit(&mut self, index: usize) -> (res: bool) {
        let i = index as u8;
        let x = *self;
        let mask: u8 = 1u8 << i;
        assert(((x & mask) == 0) == !((x >> i) & 1 == 1) && ((x | mask) >> i) & 1 == 1)
            by (bit_vector)
            requires
                i < 8,
                mask == 1u8 << i,
        ;
        assert forall|j: int| 0 <= j < 8 && j != i implies #[trigger] (x | mask).spec_bit(j)
            == x.spec_bit(j) by {
            let k = j as u8;
            assert(((x | mask) >> k) & 1 == (x >> k) & 1) by (bit_vector)
                requires
                    i < 8,
                    k < 8,
                    k != i,
                    mask == 1u8 << i,
            ;
        }
        *self = x | mask;
        (x & mask) == 0
    }

    fn clear_bit(&mut self, index: usize) -> (res: bool) {
        let i = index as u8;
        let x = *self;
        let mask: u8 = 1u8 << i;
        assert(((x & mask) != 0) == ((x >> i) & 1 == 1) && ((x & !mask) >> i) & 1 != 1)
            by (bit_vector)
            requires
                i < 8,
                mask == 1u8 << i,
        ;
        assert forall|j: int| 0 <= j < 8 && j != i implies #[trigger] (x & !mask).spec_bit(j)
            == x.spec_bit(j) by {
            let k = j as u8;
            assert(((x & !mask) >> k) & 1 == (x >> k) & 1) by (bit_vector)
                requires
                    i < 8,
                    k < 8,
                    k != i,
                    mask == 1u8 << i,
            ;
        }
        *self = x & !mask;
        (x & mask) != 0
    }
}

impl BitStorage for u16 {
    open spec fn spec_bits() -> nat {
        16
    }

    open spec fn spec_bit(&self, index: int) -> bool {
        (*self >> (index as u16)) & 1 == 1
    }

    fn bits_in_storage() -> (res: usize) {
        16
    }

    fn empty() -> (res: u16) {
        assert(forall|i: u16| i < 16 ==> #[trigger] ((0u16 >> i) & 1) == 0) by (bit_vector);
        0
    }

    fn get_bit(&self, index: usize) -> (res: bool) {
        let i = index as u16;
        let x = *self;
        assert(((x & (1u16 << i)) != 0) == ((x >> i) & 1 == 1)) by (bit_vector)
            requires
                i < 16,
        ;
        (x & (1u16 << i)) != 0
    }

    fn set_bit(&mut self, index: usize) -> (res: bool) {
        let i = index as u16;
        let x = *self;
        let mask: u16 = 1u16 << i;
        assert(((x & mask) == 0) == !((x >> i) & 1 == 1) && ((x | mask) >> i) & 1 == 1)
            by (bit_vector)
            requires
                i < 16,
                mask == 1u16 << i,
        ;
        assert forall|j: int| 0 <= j < 16 && j != i implies #[trigger] (x | mask).spec_bit(j)
            == x.spec_bit(j) by {
            let k = j as u16;
            assert(((x | mask) >> k) & 1 == (x >> k) & 1) by (bit_vector)
                requires
                    i < 16,
                    k < 16,
                    k != i,
                    mask == 1u16 << i,
            ;
        }
        *self = x | mask;
        (x & mask) == 0
    }

    fn clear_bit(&mut self, index: usize) -> (res: bool) {
        let i = index as u16;
        let x = *self;
        let mask: u16 = 1u16 << i;
        assert(((x & mask) != 0) == ((x >> i) & 1 == 1) && ((x & !mask) >> i) & 1 != 1)
            by (bit_vector)
            requires
                i < 16,
                mask == 1u16 << i,
        ;
        assert forall|j: int| 0 <= j < 16 && j != i implies #[trigger] (x & !mask).spec_bit(j)
            == x.spec_bit(j) by {
            let k = j as u16;
            assert(((x & !mask) >> k) & 1 == (x >> k) & 1) by (bit_vector)
                requires
                    i < 16,
                    k < 16,
                    k != i,
                    mask == 1u16 << i,
            ;
        }
        *self = x & !mask;
        (x & mask) != 0
    }
}

impl BitStorage for u32 {
    open spec fn spec_bits() -> nat {
        32
    }

    open spec fn spec_bit(&self, index: int) -> bool {
        (*self >> (index as u32)) & 1 == 1
    }

    fn bits_in_storage() -> (res: usize) {
        32
    }

    fn empty() -> (res: u32) {
        assert(forall|i: u32| i < 32 ==> #[trigger] ((0u32 >> i) & 1) == 0) by (bit_vector);
        0
    }

    fn get_bit(&self, index: usize) -> (res: bool) {
        let i = index as u32;
        let x = *self;
        assert(((x & (1u32 << i)) != 0) == ((x >> i) & 1 == 1)) by (bit_vector)
            requires
                i < 32,
        ;
        (x & (1u32 << i)) != 0
    }

    fn set_bit(&mut self, index: usize) -> (res: bool) {
        let i = index as u32;
        let x = *self;
        let mask: u32 = 1u32 << i;
        assert(((x & mask) == 0) == !((x >> i) & 1 == 1) && ((x | mask) >> i) & 1 == 1)
            by (bit_vector)
            requires
                i < 32,
                mask == 1u32 << i,
        ;
        assert forall|j: int| 0 <= j < 32 && j != i implies #[trigger] (x | mask).spec_bit(j)
            == x.spec_bit(j) by {
            let k = j as u32;
            assert(((x | mask) >> k) & 1 == (x >> k) & 1) by (bit_vector)
                requires
                    i < 32,
                    k < 32,
                    k != i,
                    mask == 1u32 << i,
            ;
        }
        *self = x | mask;
        (x & mask) == 0
    }

    fn clear_bit(&mut self, index: usize) -> (res: bool) {
        let i = index as u32;
        let x = *self;
        let mask: u32 = 1u32 << i;
        assert(((x & mask) != 0) == ((x >> i) & 1 == 1) && ((x & !mask) >> i) & 1 != 1)
            by (bit_vector)
            requires
                i < 32,
                mask == 1u32 << i,
        ;
        assert forall|j: int| 0 <= j < 32 && j != i implies #[trigger] (x & !mask).spec_bit(j)
            == x.spec_bit(j) by {
            let k = j as u32;
            assert(((x & !mask) >> k) & 1 == (x >> k) & 1) by (bit_vector)
                requires
                    i < 32,
                    k < 32,
                    k != i,
                    mask == 1u32 << i,
            ;
        }
        *self = x & !mask;
        (x & mask) != 0
    }
}

impl BitStorage for u64 {
    open spec fn spec_bits() -> nat {
        64
    }

    open spec fn spec_bit(&self, index: int) -> bool {
        (*self >> (index as u64)) & 1 == 1
    }

    fn bits_in_storage() -> (res: usize) {
        64
    }

    fn empty() -> (res: u64) {
        assert(forall|i: u64| i < 64 ==> #[trigger] ((0u64 >> i) & 1) == 0) by (bit_vector);
        0
    }

    fn get_bit(&self, index: usize) -> (res: bool) {
        let i = index as u64;
        let x = *self;
        assert(((x & (1u64 << i)) != 0) == ((x >> i) & 1 == 1)) by (bit_vector)
            requires
                i < 64,
        ;
        (x & (1u64 << i)) != 0
    }

    fn set_bit(&mut self, index: usize) -> (res: bool) {
        let i = index as u64;
        let x = *self;
        let mask: u64 = 1u64 << i;
        assert(((x & mask) == 0) == !((x >> i) & 1 == 1) && ((x | mask) >> i) & 1 == 1)
            by (bit_vector)
            requires
                i < 64,
                mask == 1u64 << i,
        ;
        assert forall|j: int| 0 <= j < 64 && j != i implies #[trigger] (x | mask).spec_bit(j)
            == x.spec_bit(j) by {
            let k = j as u64;
            assert(((x | mask) >> k) & 1 == (x >> k) & 1) by (bit_vector)
                requires
                    i < 64,
                    k < 64,
                    k != i,
                    mask == 1u64 << i,
            ;
        }
        *self = x | mask;
        (x & mask) == 0
    }

    fn clear_bit(&mut self, index: usize) -> (res: bool) {
        let i = index as u64;
        let x = *self;
        let mask: u64 = 1u64 << i;
        assert(((x & mask) != 0) == ((x >> i) & 1 == 1) && ((x & !mask) >> i) & 1 != 1)
            by (bit_vector)
            requires
                i < 64,
                mask == 1u64 << i,
        ;
        assert forall|j: int| 0 <= j < 64 && j != i implies #[trigger] (x & !mask).spec_bit(j)
            == x.spec_bit(j) by {
            let k = j as u64;
            assert(((x & !mask) >> k) & 1 == (x >> k) & 1) by (bit_vector)
                requires
                    i < 64,
                    k < 64,
                    k != i,
                    mask == 1u64 << i,
            ;
        }
        *self = x & !mask;
        (x & mask) != 0
    }
}

impl BitStorage for u128 {
    open spec fn spec_bits() -> nat {
        128
    }

    open spec fn spec_bit(&self, index: int) -> bool {
        (*self >> (index as u128)) & 1 == 1
    }

    fn bits_in_storage() -> (res: usize) {
        128
    }

    fn empty() -> (res: u128) {
        assert(forall|i: u128| i < 128 ==> #[trigger] ((0u128 >> i) & 1) == 0) by (bit_vector);
        0
    }

    fn get_bit(&self, index: usize) -> (res: bool) {
        let i = index as u128;
        let x = *self;
        assert(((x & (1u128 << i)) != 0) == ((x >> i) & 1 == 1)) by (bit_vector)
            requires
                i < 128,
        ;
        (x & (1u128 << i)) != 0
    }

    fn set_bit(&mut self, index: usize) -> (res: bool) {
        let i = index as u128;
        let x = *self;
        let mask: u128 = 1u128 << i;
        assert(((x & mask) == 0) == !((x >> i) & 1 == 1) && ((x | mask) >> i) & 1 == 1)
            by (bit_vector)
            requires
                i < 128,
                mask == 1u128 << i,
        ;
        assert forall|j: int| 0 <= j < 128 && j != i implies #[trigger] (x | mask).spec_bit(j)
            == x.spec_bit(j) by {
            let k = j as u128;
            assert(((x | mask) >> k) & 1 == (x >> k) & 1) by (bit_vector)
                requires
                    i < 128,
                    k < 128,
                    k != i,
                    mask == 1u128 << i,
            ;
        }
        *self = x | mask;
        (x & mask) == 0
    }

    fn clear_bit(&mut self, index: usize) -> (res: bool) {
        let i = index as u128;
        let x = *self;
        let mask: u128 = 1u128 << i;
        assert(((x & mask) != 0) == ((x >> i) & 1 == 1) && ((x & !mask) >> i) & 1 != 1)
            by (bit_vector)
            requires
                i < 128,
                mask == 1u128 << i,
        ;
        assert forall|j: int| 0 <= j < 128 && j != i implies #[trigger] (x & !mask).spec_bit(j)
            == x.spec_bit(j) by {
            let k = j as u128;
            assert(((x & !mask) >> k) & 1 == (x >> k) & 1) by (bit_vector)
                requires
                    i < 128,
                    k < 128,
                    k != i,
                    mask == 1u128 << i,
            ;
        }
        *self = x & !mask;
        (x & mask) != 0
    }
}

/// Walks the bits of a storage value from bit 0 up, or from the top down.
pub struct StorageIter<'a, S: BitStorage> {
    storage: &'a S,
    front: usize,
    back: usize,
}

impl<'a, S: BitStorage> StorageIter<'a, S> {
    pub closed spec fn spec_storage(&self) -> S {
        *self.storage
    }

    /// The bits not yet walked: `front..back`.
    pub closed spec fn spec_front(&self) -> int {
        self.front as int
    }

    pub closed spec fn spec_back(&self) -> int {
        self.back as int
    }

    pub closed spec fn wf(&self) -> bool {
        self.front <= self.back <= S::spec_bits()
    }

    /// An iterator over all bits of `storage`.
    pub fn new(storage: &'a S) -> (res: Self)
        ensures
            res.wf(),
            res.spec_storage() == *storage,
            res.spec_front() == 0,
            res.spec_back() == S::spec_bits(),
    {
        StorageIter { storage, front: 0, back: S::bits_in_storage() }
    }

    fn get(&self, bit: usize) -> (res: bool)
        requires
            bit < S::spec_bits(),
        ensures
            res == self.spec_storage().spec_bit(bit as int),
    {
        self.storage.get_bit(bit)
    }

    /// The next bit from the bottom.
    pub fn next(&mut self) -> (res: Option<bool>)
        requires
            old(self).wf(),
        ensures
            final(self).wf(),
            final(self).spec_storage() == old(self).spec_storage(),
            final(self).spec_back() == old(self).spec_back(),
            old(self).spec_front() < old(self).spec_back() ==> {
                &&& res == Some(old(self).spec_storage().spec_bit(old(self).spec_front()))
                &&& final(self).spec_front() == old(self).spec_front() + 1
            },
            old(self).spec_front() == old(self).spec_back() ==> {
                &&& res is None
                &&& final(self).spec_front() == old(self).spec_front()
            },
    {
        if self.front < self.back {
            let b = self.get(self.front);
            self.front = self.front + 1;
            Some(b)
        } else {
            None
        }
    }

    /// The next bit from the top.
    pub fn next_back(&mut self) -> (res: Option<bool>)
        requires
            old(self).wf(),
        ensures
            final(self).wf(),
            final(self).spec_storage() == old(self).spec_storage(),
            final(self).spec_front() == old(self).spec_front(),
            old(self).spec_front() < old(self).spec_back() ==> {
                &&& res == Some(old(self).spec_storage().spec_bit(old(self).spec_back() - 1))
                &&& final(self).spec_back() == old(self).spec_back() - 1
            },
            old(self).spec_front() == old(self).spec_back() ==> {
                &&& res is None
                &&& final(self).spec_back() == old(self).spec_back()
            },
    {
        if self.front < self.back {
            self.back = self.back - 1;
            Some(self.get(self.back))
        } else {
            None
        }
    }

    /// Number of bits left to walk.
    pub fn len(&self) -> (res: usize)
        requires
            self.wf(),
        ensures
            res == self.spec_back() - self.spec_front(),
    {
        self.back - self.front
    }
}

} // verus!
