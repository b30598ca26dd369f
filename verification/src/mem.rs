//! Model of the physical frame allocator the core consumes.
//!
//! The core never designs physical memory management; it only asks for
//! "alloc `n` contiguous frames" and returns them. This model hands out
//! frame ranges from a monotone cursor and keeps an exact free-frame
//! count, which is what the reclaim accounting of the ledger is measured
//! against.

use vstd::prelude::*;

verus! {

/// Frame size in bytes.
pub const FRAME_SIZE: usize = 4096;

/// log2 of the frame size: a frame number is an address shifted right by this.
pub const FRAME_BITS: usize = 12;

/// True iff `n` is a power of two.
pub open spec fn is_pow2(n: nat) -> bool
    decreases n,
{
    if n == 0 {
        false
    } else if n == 1 {
        true
    } else {
        n % 2 == 0 && is_pow2(n / 2)
    }
}

/// Helper for [`pow2_round`]: doubles `p` until it reaches `n`.
pub open spec fn pow2_round_from(p: nat, n: nat) -> nat
    decreases 2 * n - p
        when 1 <= p
{
    if p >= n {
        p
    } else {
        pow2_round_from(2 * p, n)
    }
}

/// The smallest power of two at least `n` (and at least 1).
pub open spec fn pow2_round(n: nat) -> nat {
    pow2_round_from(1, n)
}

/// Rounds `n` up to the next power of two, as the page-allocation surface
/// does before recording an allocation in the ledger. `0` rounds to `1`.
pub fn next_power_of_two(n: usize) -> (r: usize)
    requires
        n <= usize::MAX / 2,
    ensures
        r == pow2_round(n as nat),
        is_pow2(r as nat),
        r >= n,
        n <= 1 ==> r == 1,
        n > 1 ==> r < 2 * n,
{
    let mut p: usize = 1;
    while p < n
        invariant
            n <= usize::MAX / 2,
            1 <= p,
            is_pow2(p as nat),
            p == 1 || p < 2 * n,
            p == 1 || p / 2 < n,
            pow2_round_from(p as nat, n as nat) == pow2_round(n as nat),
        decreases 2 * n - p,
    {
        assert(2 * p / 2 == p) by (nonlinear_arith);
        p = p * 2;
    }
    p
}

/// The physical frame allocator, seen through the two quantities the core
/// relies on: a cursor from which fresh, pairwise-disjoint ranges are cut,
/// and the number of frames currently free.
pub struct FrameAllocator {
    /// First frame number never handed out.
    pub next_frame: usize,
    /// Number of frames currently free.
    pub free_frames: usize,
}

impl FrameAllocator {
    /// A fresh allocator owning `total` free frames, handing out frame
    /// numbers starting at `first`.
    pub fn new(first: usize, total: usize) -> (r: FrameAllocator)
        ensures
            r.next_frame == first,
            r.free_frames == total,
    {
        FrameAllocator { next_frame: first, free_frames: total }
    }

    /// Allocates `n` physically contiguous frames; returns the first frame
    /// number of the range.
    pub fn alloc_frames(&mut self, n: usize) -> (start: usize)
        requires
            n >= 1,
            n <= old(self).free_frames,
            old(self).next_frame + n <= usize::MAX,
        ensures
            start == old(self).next_frame,
            final(self).next_frame == old(self).next_frame + n,
            final(self).free_frames == old(self).free_frames - n,
    {
        let start = self.next_frame;
        self.next_frame = self.next_frame + n;
        self.free_frames = self.free_frames - n;
        start
    }

    /// Returns `n` frames to the allocator.
    pub fn free_frames_back(&mut self, n: usize) -> (r: ())
        requires
            old(self).free_frames + n <= usize::MAX,
        ensures
            final(self).free_frames == old(self).free_frames + n,
            final(self).next_frame == old(self).next_frame,
    {
        self.free_frames = self.free_frames + n;
    }
}

} // verus!
