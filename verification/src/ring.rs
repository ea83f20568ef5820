//! The ring transport: a fixed-capacity circular buffer of samples bridging
//! the capture callback (producer) and the render callback (consumer).
//!
//! A sample travels through the engine as the opaque 32-bit word of its
//! in-memory representation; the transport moves words without interpreting
//! them. The all-zero word is the silent sample.

use vstd::arithmetic::power2::{lemma2_to64, lemma_pow2_adds, lemma_pow2_strictly_increases, pow2};
use vstd::prelude::*;

verus! {

/// The silent sample: the 32-bit word that decodes to a zero amplitude.
pub const SILENCE: u32 = 0;

/// True when `n` is a power of two.
pub open spec fn is_pow2(n: int) -> bool {
    exists|k: nat| n == pow2(k)
}

/// Wraparound of an offset `t` in `[0, 2c)` into `[0, c)`.
spec fn wrap(t: int, c: int) -> int {
    if t < c {
        t
    } else {
        t - c
    }
}

/// Smallest power of two that is at least `x` (and at least 1).
///
/// The bound on `x` keeps that power of two representable.
pub fn next_pow2(x: usize) -> (r: usize)
    requires
        x <= usize::MAX / 2 + 1,
    ensures
        is_pow2(r as int),
        r >= x,
        r >= 1,
        x <= 1 ==> r == 1,
        x >= 1 ==> r < 2 * x,
        forall|q: int| is_pow2(q) && q >= x ==> r <= q,
{
    if x <= 1 {
        proof {
            lemma2_to64();
            lemma_pow2_at_least_one();
        }
        return 1;
    }
    proof {
        lemma2_to64();
        assert(1 as int == pow2(0));
    }
    let mut p: usize = 1;
    while p < x
        invariant
            1 <= p,
            is_pow2(p as int),
            x >= 2,
            x <= usize::MAX / 2 + 1,
            p < 2 * x,
        decreases 2 * x - p,
    {
        proof {
            let k = choose|k: nat| p as int == pow2(k);
            lemma2_to64();
            lemma_pow2_adds(k, 1);
            assert(2 * p as int == pow2(k + 1));
        }
        p = p * 2;
    }
    proof {
        lemma_pow2_minimal(p as int, x as int);
    }
    p
}

/// Every power of two is at least 1, so 1 is below every power of two.
proof fn lemma_pow2_at_least_one()
    ensures
        forall|q: int| is_pow2(q) ==> q >= 1,
{
    assert forall|q: int| is_pow2(q) implies q >= 1 by {
        let k = choose|k: nat| q == pow2(k);
        vstd::arithmetic::power2::lemma_pow2_pos(k);
    }
}

/// A power of two `r` with `r < 2 * x` is the least power of two at or above `x`.
proof fn lemma_pow2_minimal(r: int, x: int)
    requires
        is_pow2(r),
        r < 2 * x,
    ensures
        forall|q: int| is_pow2(q) && q >= x ==> r <= q,
{
    assert forall|q: int| is_pow2(q) && q >= x implies r <= q by {
        let a = choose|a: nat| q == pow2(a);
        let b = choose|b: nat| r == pow2(b);
        if q < r {
            if b < a {
                lemma_pow2_strictly_increases(b, a);
            }
            // so a <= b; a == b would make q == r, hence a < b
            assert(a < b);
            lemma2_to64();
            lemma_pow2_adds(a, 1);
            if a + 1 < b {
                lemma_pow2_strictly_increases(a + 1, b);
            }
            // r >= pow2(a + 1) == 2 * q >= 2 * x, contradicting r < 2 * x
            assert(false);
        }
    }
}

/// First-in-first-out fidelity, stated over the transport's model. A
/// successful `push_slice` appends to the live sequence and a successful
/// `pop_into` removes exactly its front, so consecutive pops return
/// adjacent segments of the pushed stream, in order and without gaps.
pub proof fn lemma_fifo_segments(live0: Seq<u32>, a: int, b: int)
    requires
        0 <= a,
        0 <= b,
        a + b <= live0.len(),
    ensures
        live0.skip(a).take(b) == live0.subrange(a, a + b),
        live0.take(a) + live0.skip(a).take(b) == live0.take(a + b),
{
    assert(live0.skip(a).take(b) =~= live0.subrange(a, a + b));
    assert(live0.take(a) + live0.skip(a).take(b) =~= live0.take(a + b));
}

/// Samples pending before a push leave before the pushed block: popping
/// exactly the pending samples returns them unchanged and leaves exactly
/// the new block buffered.
pub proof fn lemma_push_then_pop(pending: Seq<u32>, pushed: Seq<u32>)
    ensures
        (pending + pushed).take(pending.len() as int) == pending,
        (pending + pushed).skip(pending.len() as int) == pushed,
{
    assert((pending + pushed).take(pending.len() as int) =~= pending);
    assert((pending + pushed).skip(pending.len() as int) =~= pushed);
}

/// Fixed-capacity circular sample buffer with one write cursor and one read
/// cursor. The backing storage length is always a power of two, and one slot
/// is kept empty so that a buffer of size `C` holds at most `C - 1` live
/// samples: the cursors alone then distinguish "empty" from "full".
///
/// `push_slice` is meant for the single producer and `pop_into` for the
/// single consumer; both are all-or-nothing and never block.
pub struct RingTransport {
    buf: Vec<u32>,
    write: usize,
    read: usize,
}

impl RingTransport {
    /// Length of the backing storage (the resolved capacity `C`).
    pub closed spec fn size(self) -> int {
        self.buf@.len() as int
    }

    /// Most samples the transport can hold at once: `C - 1`.
    pub open spec fn usable(self) -> int {
        self.size() - 1
    }

    /// Number of live samples currently buffered.
    pub closed spec fn count(self) -> int {
        wrap(self.write + self.size() - self.read, self.size())
    }

    /// The live samples, oldest first: what was pushed and not yet popped.
    pub closed spec fn live(self) -> Seq<u32> {
        Seq::new(self.count() as nat, |i: int| self.buf@[wrap(self.read + i, self.size())])
    }

    /// Well-formedness: power-of-two storage and cursors in range.
    pub closed spec fn inv(self) -> bool {
        &&& self.size() >= 1
        &&& is_pow2(self.size())
        &&& (self.write as int) < self.size()
        &&& (self.read as int) < self.size()
    }

    /// Builds an empty transport whose storage size is the smallest power of
    /// two at or above the requested capacity.
    pub fn with_capacity(cap: usize) -> (r: RingTransport)
        requires
            cap <= usize::MAX / 2 + 1,
        ensures
            r.inv(),
            is_pow2(r.size()),
            r.size() >= cap,
            r.size() >= 1,
            cap >= 1 ==> r.size() < 2 * cap,
            cap <= 1 ==> r.size() == 1,
            forall|q: int| is_pow2(q) && q >= cap ==> r.size() <= q,
            r.live() =~= Seq::<u32>::empty(),
    {
        let cap_pow2 = next_pow2(cap);
        let buf: Vec<u32> = vec![SILENCE; cap_pow2];
        RingTransport { buf, write: 0, read: 0 }
    }

    /// Number of samples currently buffered.
    pub fn len(&self) -> (n: usize)
        requires
            self.inv(),
        ensures
            n == self.live().len(),
    {
        let c = self.buf.len();
        if self.write >= self.read {
            self.write - self.read
        } else {
            c - (self.read - self.write)
        }
    }

    /// Number of samples that can still be pushed.
    pub fn free_space(&self) -> (n: usize)
        requires
            self.inv(),
        ensures
            n == self.usable() - self.live().len(),
    {
        let c = self.buf.len();
        c - 1 - self.len()
    }

    /// Producer side: append the whole block after the live samples, or, if
    /// the free space cannot take it, leave the transport untouched and
    /// report failure. Never a partial write.
    pub fn push_slice(&mut self, data: &Vec<u32>) -> (ok: bool)
        requires
            old(self).inv(),
        ensures
            final(self).inv(),
            final(self).size() == old(self).size(),
            ok == (data@.len() <= old(self).usable() - old(self).live().len()),
            ok ==> final(self).live() =~= old(self).live() + data@,
            !ok ==> *final(self) == *old(self),
    {
        let free = self.free_space();
        if data.len() > free {
            return false;
        }
        let c = self.buf.len();
        let ghost prev = *self;
        let n = data.len();
        let mut i: usize = 0;
        while i < n
            invariant
                prev.inv(),
                n == data@.len(),
                n <= prev.usable() - prev.count(),
                i <= n,
                c == self.size(),
                self.size() == prev.size(),
                self.write == prev.write,
                self.read == prev.read,
                self.count() == prev.count(),
                forall|t: int|
                    0 <= t < prev.count() ==> #[trigger] self.buf@[wrap(prev.read + t, c as int)]
                        == prev.buf@[wrap(prev.read + t, c as int)],
                forall|j: int|
                    0 <= j < i ==> #[trigger] self.buf@[wrap(prev.write + j, c as int)]
                        == data@[j],
            decreases n - i,
        {
            let room = c - self.write;
            let idx = if i < room {
                self.write + i
            } else {
                i - room
            };
            assert(idx as int == wrap(prev.write + i, c as int));
            self.buf[idx] = data[i];
            i += 1;
        }
        let room = c - self.write;
        self.write = if n < room {
            self.write + n
        } else {
            n - room
        };
        proof {
            assert(self.count() == prev.count() + n);
            assert forall|t: int| 0 <= t < self.count() implies self.live()[t] == (prev.live()
                + data@)[t] by {
                if t < prev.count() {
                    assert(wrap(self.read + t, c as int) == wrap(prev.read + t, c as int));
                } else {
                    assert(wrap(self.read + t, c as int) == wrap(prev.write + (t - prev.count()), c as int));
                }
            }
            assert(self.live() =~= prev.live() + data@);
        }
        true
    }

    /// Consumer side: fill `out` completely with the oldest live samples and
    /// remove them, or, if fewer are buffered than `out` holds, leave both
    /// the transport and `out` untouched and report failure.
    pub fn pop_into(&mut self, out: &mut Vec<u32>) -> (ok: bool)
        requires
            old(self).inv(),
        ensures
            final(self).inv(),
            final(self).size() == old(self).size(),
            final(out)@.len() == old(out)@.len(),
            ok == (old(out)@.len() <= old(self).live().len()),
            ok ==> final(out)@ =~= old(self).live().take(old(out)@.len() as int),
            ok ==> final(self).live() =~= old(self).live().skip(old(out)@.len() as int),
            !ok ==> *final(self) == *old(self) && final(out)@ == old(out)@,
    {
        let avail = self.len();
        if out.len() > avail {
            return false;
        }
        let c = self.buf.len();
        let ghost prev = *self;
        let n = out.len();
        let mut i: usize = 0;
        while i < n
            invariant
                prev.inv(),
                *self == prev,
                n <= prev.count(),
                i <= n,
                c == self.size(),
                n == out@.len(),
                forall|j: int| 0 <= j < i ==> out@[j] == prev.live()[j],
            decreases n - i,
        {
            let room = c - self.read;
            let idx = if i < room {
                self.read + i
            } else {
                i - room
            };
            assert(idx as int == wrap(prev.read + i, c as int));
            out[i] = self.buf[idx];
            i += 1;
        }
        let room = c - self.read;
        self.read = if n < room {
            self.read + n
        } else {
            n - room
        };
        proof {
            assert(self.count() == prev.count() - n);
            assert forall|t: int| 0 <= t < self.count() implies self.live()[t]
                == prev.live().skip(n as int)[t] by {
                assert(wrap(self.read + t, c as int) == wrap(prev.read + (n + t), c as int));
            }
            assert(self.live() =~= prev.live().skip(n as int));
            assert(out@ =~= prev.live().take(n as int));
        }
        true
    }

    /// Render-side step: fill `out` from the transport when enough samples
    /// are buffered; on underrun leave the transport alone and overwrite
    /// `out` wholly with silence, so stale data never reaches the device.
    pub fn pop_or_silence(&mut self, out: &mut Vec<u32>) -> (ok: bool)
        requires
            old(self).inv(),
        ensures
            final(self).inv(),
            final(self).size() == old(self).size(),
            final(out)@.len() == old(out)@.len(),
            ok == (old(out)@.len() <= old(self).live().len()),
            ok ==> final(out)@ =~= old(self).live().take(old(out)@.len() as int),
            ok ==> final(self).live() =~= old(self).live().skip(old(out)@.len() as int),
            !ok ==> *final(self) == *old(self),
            !ok ==> final(out)@ =~= Seq::new(old(out)@.len(), |i: int| SILENCE),
    {
        if self.pop_into(out) {
            return true;
        }
        let n = out.len();
        let mut i: usize = 0;
        while i < n
            invariant
                i <= n,
                n == out@.len(),
                forall|j: int| 0 <= j < i ==> out@[j] == SILENCE,
            decreases n - i,
        {
            out[i] = SILENCE;
            i += 1;
        }
        false
    }
}

} // verus!
