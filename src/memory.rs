//! Byte-level memory routines of the freestanding runtime.
use vstd::prelude::*;

verus! {

/// Sets the first `n` bytes of `dest` to the low byte of `c`, as `memset`
/// does.
pub fn set_bytes(dest: &mut [u8], c: i32, n: usize)
    requires
        n <= old(dest)@.len(),
    ensures
        final(dest)@.len() == old(dest)@.len(),
        forall|i: int| 0 <= i < n ==> final(dest)@[i] == c as u8,
        forall|i: int| n <= i < old(dest)@.len() ==> final(dest)@[i] == old(dest)@[i],
{
    let byte = c as u8;
    let mut i: usize = 0;
    while i < n
        invariant
            i <= n,
            n <= dest@.len(),
            dest@.len() == old(dest)@.len(),
            forall|j: int| 0 <= j < i ==> dest@[j] == byte,
            forall|j: int| n <= j < old(dest)@.len() ==> dest@[j] == old(dest)@[j],
            byte == c as u8,
        decreases n - i,
    {
        dest[i] = byte;
        i = i + 1;
    }
}

/// Copies the first `n` bytes of `src` to the front of `dest`, as `memcpy`
/// does.
pub fn copy_memory(dest: &mut [u8], src: &[u8], n: usize)
    requires
        n <= old(dest)@.len(),
        n <= src@.len(),
    ensures
        final(dest)@.len() == old(dest)@.len(),
        forall|i: int| 0 <= i < n ==> final(dest)@[i] == src@[i],
        forall|i: int| n <= i < old(dest)@.len() ==> final(dest)@[i] == old(dest)@[i],
{
    let mut i: usize = 0;
    while i < n
        invariant
            i <= n,
            n <= dest@.len(),
            n <= src@.len(),
            dest@.len() == old(dest)@.len(),
            forall|j: int| 0 <= j < i ==> dest@[j] == src@[j],
            forall|j: int| n <= j < old(dest)@.len() ==> dest@[j] == old(dest)@[j],
        decreases n - i,
    {
        dest[i] = src[i];
        i = i + 1;
    }
}

/// Copies `n` bytes of `buf` from offset `src` to offset `dest`, as
/// `memmove` does: the ranges may overlap, and the bytes land as they were
/// before the copy. Copies backwards when the destination lies above the
/// source, forwards otherwise.
pub fn overlapping_copy_memory(buf: &mut [u8], dest: usize, src: usize, n: usize)
    requires
        dest + n <= old(buf)@.len(),
        src + n <= old(buf)@.len(),
    ensures
        final(buf)@.len() == old(buf)@.len(),
        forall|i: int| 0 <= i < n ==> #[trigger] final(buf)@[dest + i] == old(buf)@[src + i],
        forall|p: int|
            0 <= p < old(buf)@.len() && !(dest <= p < dest + n) ==> final(buf)@[p] == old(buf)@[p],
{
    let ghost start = buf@;
    let len = buf.len();
    if src < dest {
        let mut i: usize = n;
        while i > 0
            invariant
                i <= n,
                src < dest,
                dest + n <= start.len(),
                src + n <= start.len(),
                buf@.len() == start.len(),
                start.len() == len,
                forall|j: int| i <= j < n ==> #[trigger] buf@[dest + j] == start[src + j],
                forall|p: int|
                    0 <= p < start.len() && !(dest + i <= p < dest + n) ==> buf@[p] == start[p],
            decreases i,
        {
            let b = buf[src + i - 1];
            buf[dest + i - 1] = b;
            i = i - 1;
        }
    } else {
        let mut i: usize = 0;
        while i < n
            invariant
                i <= n,
                dest <= src,
                dest + n <= start.len(),
                src + n <= start.len(),
                buf@.len() == start.len(),
                start.len() == len,
                forall|j: int| 0 <= j < i ==> #[trigger] buf@[dest + j] == start[src + j],
                forall|p: int|
                    0 <= p < start.len() && !(dest <= p < dest + i) ==> buf@[p] == start[p],
            decreases n - i,
        {
            let b = buf[src + i];
            buf[dest + i] = b;
            i = i + 1;
        }
    }
}

/// Compares the first `n` bytes of `s1` and `s2` as `memcmp` does: zero when
/// they are equal, else the difference of the first pair that differs.
pub fn memcmp(s1: &[u8], s2: &[u8], n: usize) -> (res: i32)
    requires
        n <= s1@.len(),
        n <= s2@.len(),
    ensures
        res == 0 <==> forall|i: int| 0 <= i < n ==> s1@[i] == s2@[i],
        res != 0 ==> exists|k: int|
            0 <= k < n && s1@[k] != s2@[k] && res == s1@[k] - s2@[k] && forall|i: int|
                0 <= i < k ==> s1@[i] == s2@[i],
{
    let mut i: usize = 0;
    while i < n
        invariant
            i <= n,
            n <= s1@.len(),
            n <= s2@.len(),
            forall|j: int| 0 <= j < i ==> s1@[j] == s2@[j],
        decreases n - i,
    {
        if s1[i] != s2[i] {
            return s1[i] as i32 - s2[i] as i32;
        }
        i = i + 1;
    }
    0
}

} // verus!
