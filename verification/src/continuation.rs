//! Per-hart continuation stack.
//!
//! Every cross-boundary call that must survive a domain crash first saves
//! the caller's integer register file together with the address of a
//! signature-matched error-returning stub, and publishes that frame here.
//! On normal return the frame is popped; on a crash the unwind path pops
//! it instead and resumes at the stub, which returns the typed crash error
//! as if it were the called function's own result. Exactly one of the two
//! consumes any given frame.

use vstd::prelude::*;

verus! {

/// Number of integer registers an architecture frame saves.
pub const REGISTER_COUNT: usize = 32;

/// A saved caller register file plus the stub to resume at on crash.
pub struct ContinuationFrame {
    /// The caller's integer registers at the call site.
    pub regs: Vec<usize>,
    /// Address of the error-returning stub matched to the call site's
    /// signature.
    pub stub: usize,
}

impl ContinuationFrame {
    /// A frame holds a full integer register file.
    pub open spec fn wf(self) -> bool {
        self.regs@.len() == REGISTER_COUNT
    }
}

/// The LIFO of published frames of one hart.
pub struct ContinuationStack {
    pub frames: Vec<ContinuationFrame>,
}

impl ContinuationStack {
    /// Every published frame holds a full register file.
    pub open spec fn wf(self) -> bool {
        forall|i: int| 0 <= i < self.frames@.len() ==> #[trigger] self.frames@[i].wf()
    }

    /// An empty stack, as each hart starts with.
    pub fn new() -> (r: ContinuationStack)
        ensures
            r.frames@.len() == 0,
            r.wf(),
    {
        ContinuationStack { frames: Vec::new() }
    }

    /// Number of frames currently published.
    pub fn depth(&self) -> (r: usize)
        ensures
            r == self.frames@.len(),
    {
        self.frames.len()
    }

    /// Publishes a frame for the dynamic extent of one cross-boundary call.
    pub fn register_cont(&mut self, frame: ContinuationFrame)
        requires
            old(self).wf(),
            frame.wf(),
        ensures
            final(self).wf(),
            final(self).frames@ == old(self).frames@.push(frame),
    {
        self.frames.push(frame);
    }

    /// Consumes the top frame on the normal-return path.
    pub fn pop_continuation(&mut self) -> (r: ContinuationFrame)
        requires
            old(self).wf(),
            old(self).frames@.len() > 0,
        ensures
            final(self).wf(),
            r == old(self).frames@.last(),
            final(self).frames@ == old(self).frames@.drop_last(),
            r.wf(),
    {
        let r = self.frames.pop().unwrap();
        r
    }

    /// Consumes the top frame on the crash path: the caller's registers are
    /// restored from it and control resumes at its stub, so the returned
    /// frame tells the caller where to resume.
    pub fn unwind(&mut self) -> (r: ContinuationFrame)
        requires
            old(self).wf(),
            old(self).frames@.len() > 0,
        ensures
            final(self).wf(),
            r == old(self).frames@.last(),
            final(self).frames@ == old(self).frames@.drop_last(),
            r.wf(),
    {
        let r = self.frames.pop().unwrap();
        r
    }
}

/// A frame published for one call is consumed exactly once: whichever of
/// `pop_continuation` and `unwind` runs first removes it, and afterwards
/// the stack no longer holds it, so the other path can never see it again.
/// `pop_continuation` and `unwind` both take the stack from `s.push(f)`
/// back to `s`, and a frame absent from `s` stays absent.
pub proof fn lemma_frame_consumed_once(s: Seq<ContinuationFrame>, f: ContinuationFrame)
    requires
        !s.contains(f),
    ensures
        s.push(f).last() == f,
        s.push(f).drop_last() == s,
        !s.push(f).drop_last().contains(f),
{
    assert(s.push(f).drop_last() =~= s);
}

/// Nested cross-boundary calls nest on the stack: the frame consumed on
/// return from the inner call is the inner frame, and the outer frame is
/// still on top for the outer call's own return.
pub proof fn lemma_nested_calls(
    s: Seq<ContinuationFrame>,
    outer: ContinuationFrame,
    inner: ContinuationFrame,
)
    ensures
        s.push(outer).push(inner).last() == inner,
        s.push(outer).push(inner).drop_last() == s.push(outer),
        s.push(outer).last() == outer,
{
    assert(s.push(outer).push(inner).drop_last() =~= s.push(outer));
}

} // verus!
