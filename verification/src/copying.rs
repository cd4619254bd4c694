//! The copy loop's verified pieces.
//!
//! The loop itself alternates a pooled read with a full write to the
//! destination. Its transform draws a buffer from a second pool sized for
//! the destination side and copies the filled bytes into it before the
//! source buffer is recycled; the running total of copied bytes is
//! accumulated one chunk at a time.

use vstd::prelude::*;

use crate::pool::BufferPool;

verus! {

/// Prepare one chunk for the destination: draw a buffer from the pool,
/// copy the filled bytes into its prefix, and pair it with the byte count.
/// This is the copy loop's transform: it fully copies the slice it is given
/// before that slice's backing buffer is recycled. The drawn buffer must be
/// released back to the pool once the chunk has been written out.
pub fn fill_chunk(pool: &mut BufferPool, data: &[u8]) -> (r: (Vec<u8>, usize))
    requires
        old(pool).wf(),
        data@.len() <= old(pool).capacity(),
    ensures
        final(pool).wf(),
        final(pool).capacity() == old(pool).capacity(),
        r.0@.len() == old(pool).capacity(),
        r.1 == data@.len(),
        r.0@.subrange(0, r.1 as int) == data@,
        old(pool).contents().len() == 0 ==> final(pool).contents() == old(pool).contents(),
        old(pool).contents().len() != 0 ==> exists|b: Seq<u8>|
            #[trigger] old(pool).contents().contains(b) && final(pool).contents() == old(
                pool,
            ).contents().remove(b),
{
    let mut buf = pool.acquire();
    let ghost drawn = buf@;
    let n = data.len();
    let mut i: usize = 0;
    while i < n
        invariant
            i <= n,
            n == data@.len(),
            n <= buf@.len(),
            buf@.len() == old(pool).capacity(),
            forall|j: int| 0 <= j < i ==> buf@[j] == data@[j],
        decreases n - i,
    {
        buf[i] = data[i];
        i += 1;
    }
    proof {
        assert(buf@.subrange(0, n as int) =~= data@);
        if old(pool).contents().len() != 0 {
            assert(old(pool).contents().contains(drawn));
        }
    }
    (buf, n)
}

/// Add one produced chunk's byte count to the copy loop's running total.
pub fn add_to_total(total: u64, n: usize) -> (r: u64)
    requires
        total + n <= u64::MAX,
    ensures
        r == total + n,
{
    total + (n as u64)
}

} // verus!
