//! The kernel-side implementation of the capability surface.
//!
//! One `DomainSyscall` value serves all domains. It owns the resource
//! ledger, the frame allocator, the device-space table, the peer-lookup
//! registry, the console, and the one-shot crash flag the unwind path
//! flips. Crash reclaim (`sys_backtrace`) is the heart: it removes the
//! ledger entry of the crashed domain, returns every recorded page to the
//! allocator, frees the three shim objects, and unwinds to the topmost
//! continuation frame.

use crate::continuation::{ContinuationFrame, ContinuationStack};
use crate::error::{AlienError, AlienResult};
use crate::ledger::{
    ledger_total, lemma_entries_eq_off_key_support, lemma_ledger_total_push,
    lemma_ledger_total_remove, lemma_ledger_total_update, lemma_spans_total_take_le,
    lemma_spans_total_take_step, spans_total, without_start, DomainResources, PageSpan,
    ResourceLedger,
};
use crate::libsyscall::{DeviceType, DomainIdent};
use crate::mem::{next_power_of_two, pow2_round, FrameAllocator};
use vstd::prelude::*;

verus! {

/// Fixed addresses the kernel exposes to domains for building user-mode
/// trap returns, and the bounds of kernel space.
#[derive(Clone, Copy, PartialEq, Eq, Structural)]
pub struct KernelConstants {
    pub trampoline: usize,
    pub kernel_satp: usize,
    pub trap_from_user: usize,
    pub trap_to_user: usize,
    pub kernel_start: usize,
    pub kernel_end: usize,
}

/// One record of the static device-space table.
#[derive(Clone, Copy, PartialEq, Eq, Structural)]
pub struct DeviceSpaceRecord {
    pub kind: DeviceType,
    pub base: usize,
    pub size: usize,
}

/// True iff `[start, start + size)` lies entirely within kernel space.
pub open spec fn in_kernel_space(c: KernelConstants, start: usize, size: usize) -> bool {
    c.kernel_start <= start && start + size <= c.kernel_end
}

/// First registry entry for `name`, scanning front to back.
pub open spec fn registry_lookup(s: Seq<(DomainIdent, u64)>, name: DomainIdent) -> Option<u64>
    decreases s.len(),
{
    if s.len() == 0 {
        None
    } else if s[0].0 == name {
        Some(s[0].1)
    } else {
        registry_lookup(s.drop_first(), name)
    }
}

/// First device-space record of kind `ty`, scanning front to back.
pub open spec fn device_lookup(s: Seq<DeviceSpaceRecord>, ty: DeviceType) -> Option<(usize, usize)>
    decreases s.len(),
{
    if s.len() == 0 {
        None
    } else if s[0].kind == ty {
        Some((s[0].base, s[0].size))
    } else {
        device_lookup(s.drop_first(), ty)
    }
}

/// Frames are conserved across an operation: what the ledger records
/// plus what the allocator holds free is unchanged.
pub open spec fn frames_conserved(pre: DomainSyscall, post: DomainSyscall) -> bool {
    ledger_total(post.ledger.entries@) + post.allocator.free_frames == ledger_total(
        pre.ledger.entries@,
    ) + pre.allocator.free_frames
}

/// Registering a name makes it resolvable: after the push some entry for
/// `name` is found (the earliest registration wins).
pub proof fn lemma_registry_lookup_push(s: Seq<(DomainIdent, u64)>, name: DomainIdent, id: u64)
    ensures
        registry_lookup(s.push((name, id)), name) is Some,
    decreases s.len(),
{
    if s.len() == 0 {
        assert(s.push((name, id))[0] == (name, id));
    } else if s[0].0 == name {
        assert(s.push((name, id))[0] == s[0]);
    } else {
        assert(s.push((name, id))[0] == s[0]);
        assert(s.push((name, id)).drop_first() =~= s.drop_first().push((name, id)));
        lemma_registry_lookup_push(s.drop_first(), name, id);
    }
}

/// The capability surface a domain calls into.
pub struct DomainSyscall {
    /// Per-domain resource accounting.
    pub ledger: ResourceLedger,
    /// The physical frame allocator the surface draws from.
    pub allocator: FrameAllocator,
    /// Static (kind, base, size) table of device spaces.
    pub device_space: Vec<DeviceSpaceRecord>,
    /// Peer-lookup registry: name to domain id, populated at boot and
    /// during restart.
    pub registry: Vec<(DomainIdent, u64)>,
    /// Fixed kernel addresses handed out to domains.
    pub constants: KernelConstants,
    /// Monotonic milliseconds since boot.
    pub timer_ms: u64,
    /// Everything ever written to the console, in order.
    pub console: Vec<u8>,
    /// The platform device-tree blob.
    pub dtb: Vec<u8>,
    /// One-shot flag flipped by the unwind path exactly once.
    pub blk_crash: bool,
    /// Next address handed out for a freshly built shim object.
    pub next_shim_addr: usize,
}

impl DomainSyscall {
    pub open spec fn wf(self) -> bool {
        self.ledger.wf()
    }

    /// A fresh surface over the given platform configuration. The crash
    /// flag starts raised; the first unwind lowers it.
    pub fn new(
        constants: KernelConstants,
        device_space: Vec<DeviceSpaceRecord>,
        allocator: FrameAllocator,
        dtb: Vec<u8>,
    ) -> (r: DomainSyscall)
        ensures
            r.wf(),
            r.ledger.entries@.len() == 0,
            r.allocator == allocator,
            r.device_space@ == device_space@,
            r.registry@.len() == 0,
            r.constants == constants,
            r.timer_ms == 0,
            r.console@.len() == 0,
            r.dtb@ == dtb@,
            r.blk_crash,
            r.next_shim_addr == 0x1000,
    {
        DomainSyscall {
            ledger: ResourceLedger::new(),
            allocator,
            device_space,
            registry: Vec::new(),
            constants,
            timer_ms: 0,
            console: Vec::new(),
            dtb,
            blk_crash: true,
            next_shim_addr: 0x1000,
        }
    }

    /// Hands out the address of a freshly built shim object.
    pub fn alloc_shim_addr(&mut self) -> (r: usize)
        requires
            old(self).next_shim_addr < usize::MAX,
        ensures
            r == old(self).next_shim_addr,
            final(self).next_shim_addr == old(self).next_shim_addr + 1,
            final(self).ledger == old(self).ledger,
            final(self).allocator == old(self).allocator,
            final(self).registry@ == old(self).registry@,
            final(self).blk_crash == old(self).blk_crash,
            final(self).console@ == old(self).console@,
            final(self).timer_ms == old(self).timer_ms,
            final(self).constants == old(self).constants,
            final(self).device_space@ == old(self).device_space@,
            final(self).dtb@ == old(self).dtb@,
    {
        let r = self.next_shim_addr;
        self.next_shim_addr = self.next_shim_addr + 1;
        r
    }

    /// Registers a domain under a name for peer lookup.
    pub fn register_domain(&mut self, name: DomainIdent, domain_id: u64)
        requires
            old(self).wf(),
        ensures
            final(self).wf(),
            final(self).registry@ == old(self).registry@.push((name, domain_id)),
            final(self).ledger == old(self).ledger,
            final(self).allocator == old(self).allocator,
            final(self).blk_crash == old(self).blk_crash,
    {
        self.registry.push((name, domain_id));
    }

    /// Advances the monotonic clock, as the timer interrupt does.
    pub fn tick(&mut self, delta: u64)
        requires
            old(self).timer_ms + delta <= u64::MAX,
        ensures
            final(self).timer_ms == old(self).timer_ms + delta,
            final(self).ledger == old(self).ledger,
            final(self).allocator == old(self).allocator,
    {
        self.timer_ms = self.timer_ms + delta;
    }

    /// Allocates `n` pages, rounded up to a power of two, physically
    /// contiguous; records the allocation in the ledger; returns the first
    /// frame number.
    pub fn sys_alloc_pages(&mut self, domain_id: u64, n: usize) -> (r: usize)
        requires
            old(self).wf(),
            n <= 0x1000_0000,
            pow2_round(n as nat) <= old(self).allocator.free_frames,
            old(self).allocator.next_frame + pow2_round(n as nat) <= usize::MAX,
        ensures
            final(self).wf(),
            r == old(self).allocator.next_frame,
            final(self).ledger.pages_of(domain_id) == old(self).ledger.pages_of(domain_id).push(
                PageSpan { start: r, count: pow2_round(n as nat) as usize },
            ),
            final(self).ledger.spec_contains(domain_id),
            forall|e: u64|
                final(self).ledger.spec_contains(e) <==> (old(self).ledger.spec_contains(e) || e
                    == domain_id),
            final(self).allocator.free_frames == old(self).allocator.free_frames - pow2_round(
                n as nat,
            ),
            final(self).allocator.next_frame == old(self).allocator.next_frame + pow2_round(
                n as nat,
            ),
            final(self).blk_crash == old(self).blk_crash,
            final(self).registry@ == old(self).registry@,
            frames_conserved(*old(self), *final(self)),
            forall|k: int|
                0 <= k < final(self).ledger.entries@.len() && final(self).ledger.entries@[k].0
                    != domain_id ==> #[trigger] final(self).ledger.entries@[k] == old(
                    self,
                ).ledger.entries@[k],
            old(self).ledger.spec_contains(domain_id) ==> final(self).ledger.entries@.len() == old(
                self,
            ).ledger.entries@.len(),
            !old(self).ledger.spec_contains(domain_id) ==> final(self).ledger.entries@.len()
                == old(self).ledger.entries@.len() + 1 && final(self).ledger.idx_of(domain_id)
                == old(self).ledger.entries@.len(),
            final(self).ledger.resources_of(domain_id).syscall_shim == (if old(
                self,
            ).ledger.spec_contains(domain_id) {
                old(self).ledger.resources_of(domain_id).syscall_shim
            } else {
                None::<usize>
            }),
            final(self).ledger.resources_of(domain_id).heap_shim == (if old(
                self,
            ).ledger.spec_contains(domain_id) {
                old(self).ledger.resources_of(domain_id).heap_shim
            } else {
                None::<usize>
            }),
            final(self).ledger.resources_of(domain_id).task_shim == (if old(
                self,
            ).ledger.spec_contains(domain_id) {
                old(self).ledger.resources_of(domain_id).task_shim
            } else {
                None::<usize>
            }),
    {
        let np = next_power_of_two(n);
        let start = self.allocator.alloc_frames(np);
        self.ledger.record_pages(domain_id, PageSpan { start, count: np });
        proof {
            let pre = old(self).ledger.entries@;
            let post = self.ledger.entries@;
            let i = self.ledger.idx_of(domain_id);
            assert(0 <= i < post.len() && post[i].0 == domain_id);
            lemma_entries_eq_off_key_support(pre, post, domain_id, i);
            let span = PageSpan { start: old(self).allocator.next_frame, count: np };
            if old(self).ledger.spec_contains(domain_id) {
                lemma_ledger_total_update(pre, post, i);
                assert(post[i].1.pages@ == pre[i].1.pages@.push(span));
                assert(post[i].1.pages@.drop_last() =~= pre[i].1.pages@);
                assert(post[i].1.pages@.last() == span);
                assert(spans_total(post[i].1.pages@) == spans_total(pre[i].1.pages@) + np);
            } else {
                assert(post =~= pre.push(post.last()));
                lemma_ledger_total_push(pre, post.last());
                assert(post.last().1.pages@ == seq![span]);
                assert(post.last().1.pages@.drop_last() =~= Seq::<PageSpan>::empty());
                assert(post.last().1.pages@.last() == span);
                assert(spans_total(Seq::<PageSpan>::empty()) == 0);
                assert(post.last().1.pages@.len() == 1);
                assert(spans_total(post.last().1.pages@) == spans_total(
                    post.last().1.pages@.drop_last(),
                ) + post.last().1.pages@.last().count);
                assert(spans_total(post.last().1.pages@) == np);
            }
        }
        start
    }

    /// Drops the ledger records of domain `domain_id` whose range starts at
    /// frame `p` and returns those pages to the allocator. A free that
    /// matches no prior allocation is a no-op on the ledger. `n` is the
    /// caller's size hint; the recorded spans govern what is returned, so a
    /// stale hint cannot over-free.
    pub fn sys_free_pages(&mut self, domain_id: u64, p: usize, n: usize) -> (freed: usize)
        requires
            old(self).wf(),
            spans_total(old(self).ledger.pages_of(domain_id)) + old(self).allocator.free_frames
                <= usize::MAX,
        ensures
            final(self).wf(),
            final(self).allocator.free_frames == old(self).allocator.free_frames + freed,
            final(self).allocator.next_frame == old(self).allocator.next_frame,
            !old(self).ledger.spec_contains(domain_id) ==> freed == 0
                && final(self).ledger.entries@ == old(self).ledger.entries@,
            old(self).ledger.spec_contains(domain_id) ==> {
                &&& final(self).ledger.pages_of(domain_id) == without_start(
                    old(self).ledger.pages_of(domain_id),
                    p,
                )
                &&& freed == spans_total(old(self).ledger.pages_of(domain_id)) - spans_total(
                    final(self).ledger.pages_of(domain_id),
                )
                &&& final(self).ledger.resources_of(domain_id).syscall_shim == old(
                    self,
                ).ledger.resources_of(domain_id).syscall_shim
                &&& final(self).ledger.resources_of(domain_id).heap_shim == old(
                    self,
                ).ledger.resources_of(domain_id).heap_shim
                &&& final(self).ledger.resources_of(domain_id).task_shim == old(
                    self,
                ).ledger.resources_of(domain_id).task_shim
            },
            forall|e: u64|
                final(self).ledger.spec_contains(e) == old(self).ledger.spec_contains(e),
            final(self).blk_crash == old(self).blk_crash,
            final(self).registry@ == old(self).registry@,
            frames_conserved(*old(self), *final(self)),
            forall|k: int|
                0 <= k < final(self).ledger.entries@.len() && final(self).ledger.entries@[k].0
                    != domain_id ==> #[trigger] final(self).ledger.entries@[k] == old(
                    self,
                ).ledger.entries@[k],
            final(self).ledger.entries@.len() == old(self).ledger.entries@.len(),
    {
        proof {
            crate::ledger::lemma_spans_total_nonneg(old(self).ledger.pages_of(domain_id));
        }
        let freed = self.ledger.remove_pages_at(domain_id, p);
        proof {
            crate::ledger::lemma_spans_total_nonneg(self.ledger.pages_of(domain_id));
            let pre = old(self).ledger.entries@;
            let post = self.ledger.entries@;
            if old(self).ledger.spec_contains(domain_id) {
                let i = self.ledger.idx_of(domain_id);
                lemma_entries_eq_off_key_support(pre, post, domain_id, i);
                lemma_ledger_total_update(pre, post, i);
            } else {
                assert(post =~= pre);
            }
        }
        self.allocator.free_frames_back(freed);
        freed
    }

    /// Writes free-form text to the kernel console.
    pub fn sys_write_console(&mut self, s: &[u8])
        ensures
            final(self).console@ == old(self).console@ + s@,
            final(self).ledger == old(self).ledger,
            final(self).allocator == old(self).allocator,
            final(self).blk_crash == old(self).blk_crash,
            final(self).registry@ == old(self).registry@,
            final(self).constants == old(self).constants,
            final(self).timer_ms == old(self).timer_ms,
            final(self).dtb@ == old(self).dtb@,
            final(self).device_space@ == old(self).device_space@,
    {
        let mut i: usize = 0;
        let n = s.len();
        while i < n
            invariant
                n == s@.len(),
                i <= n,
                self.console@ == old(self).console@ + s@.take(i as int),
                self.ledger == old(self).ledger,
                self.allocator == old(self).allocator,
                self.blk_crash == old(self).blk_crash,
                self.registry@ == old(self).registry@,
                self.constants == old(self).constants,
                self.timer_ms == old(self).timer_ms,
                self.dtb@ == old(self).dtb@,
                self.device_space@ == old(self).device_space@,
            decreases n - i,
        {
            let b = s[i];
            self.console.push(b);
            i = i + 1;
            proof {
                assert(self.console@ =~= old(self).console@ + s@.take(i as int));
            }
        }
        proof {
            assert(self.console@ =~= old(self).console@ + s@);
        }
    }

    /// Crash reclaim: dumps the trace for `domain_id` (a console line names
    /// the domain), removes its ledger entry, returns every recorded page
    /// to the allocator, releases the three shim objects, lowers the
    /// one-shot crash flag, and unwinds to the topmost continuation frame,
    /// which is returned so the caller resumes at its stub.
    pub fn sys_backtrace(&mut self, domain_id: u64, stack: &mut ContinuationStack) -> (frame:
        ContinuationFrame)
        requires
            old(self).wf(),
            old(stack).wf(),
            old(stack).frames@.len() > 0,
            old(self).ledger.spec_contains(domain_id),
            old(self).ledger.resources_of(domain_id).syscall_shim is Some,
            old(self).ledger.resources_of(domain_id).heap_shim is Some,
            old(self).ledger.resources_of(domain_id).task_shim is Some,
            spans_total(old(self).ledger.pages_of(domain_id)) + old(self).allocator.free_frames
                <= usize::MAX,
        ensures
            final(self).wf(),
            final(stack).wf(),
            !final(self).ledger.spec_contains(domain_id),
            forall|e: u64|
                e != domain_id ==> (final(self).ledger.spec_contains(e) == old(
                    self,
                ).ledger.spec_contains(e)),
            forall|e: u64|
                e != domain_id && final(self).ledger.spec_contains(e)
                    ==> final(self).ledger.entries@[final(self).ledger.idx_of(e)]
                        == old(self).ledger.entries@[old(self).ledger.idx_of(e)],
            final(self).allocator.free_frames == old(self).allocator.free_frames + spans_total(
                old(self).ledger.pages_of(domain_id),
            ),
            final(self).allocator.next_frame == old(self).allocator.next_frame,
            !final(self).blk_crash,
            frame == old(stack).frames@.last(),
            final(stack).frames@ == old(stack).frames@.drop_last(),
            final(self).registry@ == old(self).registry@,
            frames_conserved(*old(self), *final(self)),
            final(self).next_shim_addr == old(self).next_shim_addr,
            final(self).console@ == old(self).console@,
            final(self).timer_ms == old(self).timer_ms,
            final(self).constants == old(self).constants,
            final(self).device_space@ == old(self).device_space@,
            final(self).dtb@ == old(self).dtb@,
    {
        proof {
            lemma_ledger_total_remove(
                self.ledger.entries@,
                self.ledger.idx_of(domain_id),
            );
        }
        let res = self.ledger.remove_domain(domain_id);
        let resources = res.unwrap();
        let total = total_of_spans(&resources.pages);
        self.allocator.free_frames_back(total);
        // The three shim objects recorded in the entry are dropped with it.
        self.blk_crash = false;
        stack.unwind()
    }

    /// Monotonic milliseconds since boot.
    pub fn sys_read_timer(&self) -> (r: u64)
        ensures
            r == self.timer_ms,
    {
        self.timer_ms
    }

    /// Looks up the device-space record of kind `ty`: the static table maps
    /// each device class to one (base, size) range.
    pub fn sys_device_space(&self, ty: DeviceType) -> (r: Option<(usize, usize)>)
        ensures
            r == device_lookup(self.device_space@, ty),
    {
        let mut i: usize = 0;
        let n = self.device_space.len();
        proof {
            assert(self.device_space@.skip(0) =~= self.device_space@);
        }
        while i < n
            invariant
                n == self.device_space@.len(),
                i <= n,
                device_lookup(self.device_space@, ty) == device_lookup(
                    self.device_space@.skip(i as int),
                    ty,
                ),
            decreases n - i,
        {
            let rec = self.device_space[i];
            proof {
                assert(self.device_space@.skip(i as int)[0] == self.device_space@[i as int]);
                assert(self.device_space@.skip(i as int).drop_first() =~= self.device_space@.skip(
                    i + 1,
                ));
            }
            if rec.kind == ty {
                return Some((rec.base, rec.size));
            }
            i = i + 1;
        }
        proof {
            assert(self.device_space@.skip(n as int) =~= Seq::<DeviceSpaceRecord>::empty());
        }
        None
    }

    /// Is `[start, start + size)` entirely within the kernel's own address
    /// space?
    pub fn check_kernel_space(&self, start: usize, size: usize) -> (r: bool)
        ensures
            r == in_kernel_space(self.constants, start, size),
    {
        if start < self.constants.kernel_start {
            return false;
        }
        if start > self.constants.kernel_end {
            return false;
        }
        size <= self.constants.kernel_end - start
    }

    /// Peer lookup by name: returns the registered domain id, through which
    /// the caller reaches the peer's proxy, never its raw capability.
    pub fn query_domain(&self, name: DomainIdent) -> (r: Option<u64>)
        ensures
            r == registry_lookup(self.registry@, name),
    {
        let mut i: usize = 0;
        let n = self.registry.len();
        proof {
            assert(self.registry@.skip(0) =~= self.registry@);
        }
        while i < n
            invariant
                n == self.registry@.len(),
                i <= n,
                registry_lookup(self.registry@, name) == registry_lookup(
                    self.registry@.skip(i as int),
                    name,
                ),
            decreases n - i,
        {
            let entry = self.registry[i];
            proof {
                assert(self.registry@.skip(i as int)[0] == self.registry@[i as int]);
                assert(self.registry@.skip(i as int).drop_first() =~= self.registry@.skip(i + 1));
            }
            if entry.0 == name {
                return Some(entry.1);
            }
            i = i + 1;
        }
        proof {
            assert(self.registry@.skip(n as int) =~= Seq::<(DomainIdent, u64)>::empty());
        }
        None
    }

    /// Peer lookup of the block-device domain.
    pub fn sys_get_blk_domain(&self) -> (r: Option<u64>)
        ensures
            r == registry_lookup(self.registry@, DomainIdent::Blk),
    {
        self.query_domain(DomainIdent::Blk)
    }

    /// Peer lookup of the shadow block-device domain.
    pub fn sys_get_shadow_blk_domain(&self) -> (r: Option<u64>)
        ensures
            r == registry_lookup(self.registry@, DomainIdent::ShadowBlk),
    {
        self.query_domain(DomainIdent::ShadowBlk)
    }

    /// Peer lookup of the UART domain.
    pub fn sys_get_uart_domain(&self) -> (r: Option<u64>)
        ensures
            r == registry_lookup(self.registry@, DomainIdent::Uart),
    {
        self.query_domain(DomainIdent::Uart)
    }

    /// Peer lookup of the GPU domain.
    pub fn sys_get_gpu_domain(&self) -> (r: Option<u64>)
        ensures
            r == registry_lookup(self.registry@, DomainIdent::Gpu),
    {
        self.query_domain(DomainIdent::Gpu)
    }

    /// Peer lookup of an input domain by kind.
    pub fn sys_get_input_domain(&self, ty: DomainIdent) -> (r: Option<u64>)
        ensures
            r == registry_lookup(self.registry@, ty),
    {
        self.query_domain(ty)
    }

    /// Peer lookup of the RTC domain.
    pub fn sys_get_rtc_domain(&self) -> (r: Option<u64>)
        ensures
            r == registry_lookup(self.registry@, DomainIdent::Rtc),
    {
        self.query_domain(DomainIdent::Rtc)
    }

    /// Peer lookup of the cache block-device domain.
    pub fn sys_get_cache_blk_domain(&self) -> (r: Option<u64>)
        ensures
            r == registry_lookup(self.registry@, DomainIdent::CacheBlk),
    {
        self.query_domain(DomainIdent::CacheBlk)
    }

    /// Test-only hook: the one-shot flag the unwind path lowers.
    pub fn blk_crash_trick(&self) -> (r: bool)
        ensures
            r == self.blk_crash,
    {
        self.blk_crash
    }

    /// The platform device-tree blob.
    pub fn sys_get_dtb(&self) -> (r: &Vec<u8>)
        ensures
            r@ == self.dtb@,
    {
        &self.dtb
    }

    /// Address of the user-mode trap trampoline.
    pub fn sys_trampoline_addr(&self) -> (r: usize)
        ensures
            r == self.constants.trampoline,
    {
        self.constants.trampoline
    }

    /// The kernel's address-translation root.
    pub fn sys_kernel_satp(&self) -> (r: usize)
        ensures
            r == self.constants.kernel_satp,
    {
        self.constants.kernel_satp
    }

    /// Entry address for traps arriving from user mode.
    pub fn sys_trap_from_user(&self) -> (r: usize)
        ensures
            r == self.constants.trap_from_user,
    {
        self.constants.trap_from_user
    }

    /// Entry address for returning to user mode.
    pub fn sys_trap_to_user(&self) -> (r: usize)
        ensures
            r == self.constants.trap_to_user,
    {
        self.constants.trap_to_user
    }
}

impl crate::libsyscall::Syscall for DomainSyscall {
    fn console_write(&mut self, s: &[u8]) {
        self.sys_write_console(s)
    }

    fn read_timer_ms(&self) -> u64 {
        self.timer_ms
    }

    fn kernel_space_check(&self, start: usize, size: usize) -> bool {
        self.check_kernel_space(start, size)
    }

    fn crash_trick(&self) -> bool {
        self.blk_crash
    }
}

/// Registers the syscall-shim instance handed to a domain, so that crash
/// reclaim can release it.
pub fn register_domain_syscall_resource(sys: &mut DomainSyscall, domain_id: u64, addr: usize)
    requires
        old(sys).wf(),
    ensures
        final(sys).wf(),
        final(sys).ledger.spec_contains(domain_id),
        final(sys).ledger.resources_of(domain_id).syscall_shim == Some(addr),
        final(sys).ledger.resources_of(domain_id).heap_shim == (if old(sys).ledger.spec_contains(
            domain_id,
        ) {
            old(sys).ledger.resources_of(domain_id).heap_shim
        } else {
            None::<usize>
        }),
        final(sys).ledger.resources_of(domain_id).task_shim == (if old(sys).ledger.spec_contains(
            domain_id,
        ) {
            old(sys).ledger.resources_of(domain_id).task_shim
        } else {
            None::<usize>
        }),
        final(sys).ledger.pages_of(domain_id) == old(sys).ledger.pages_of(domain_id),
        forall|e: u64|
            final(sys).ledger.spec_contains(e) <==> (old(sys).ledger.spec_contains(e) || e
                == domain_id),
        final(sys).allocator == old(sys).allocator,
        final(sys).blk_crash == old(sys).blk_crash,
        final(sys).registry@ == old(sys).registry@,
        final(sys).next_shim_addr == old(sys).next_shim_addr,
        frames_conserved(*old(sys), *final(sys)),
        final(sys).console@ == old(sys).console@,
        final(sys).timer_ms == old(sys).timer_ms,
        final(sys).constants == old(sys).constants,
        final(sys).device_space@ == old(sys).device_space@,
        final(sys).dtb@ == old(sys).dtb@,
        forall|k: int|
            0 <= k < final(sys).ledger.entries@.len() && final(sys).ledger.entries@[k].0
                != domain_id ==> #[trigger] final(sys).ledger.entries@[k] == old(
                sys,
            ).ledger.entries@[k],
        old(sys).ledger.spec_contains(domain_id) ==> final(sys).ledger.entries@.len() == old(
            sys,
        ).ledger.entries@.len(),
        !old(sys).ledger.spec_contains(domain_id) ==> final(sys).ledger.entries@.len() == old(
            sys,
        ).ledger.entries@.len() + 1 && final(sys).ledger.idx_of(domain_id) == old(
            sys,
        ).ledger.entries@.len(),
{
    sys.ledger.set_syscall_shim(domain_id, addr);
    proof {
        register_shim_total_proof(old(sys).ledger, sys.ledger, domain_id);
    }
}

/// Registers the shared-heap allocator instance handed to a domain.
pub fn register_domain_heap_resource(sys: &mut DomainSyscall, domain_id: u64, addr: usize)
    requires
        old(sys).wf(),
    ensures
        final(sys).wf(),
        final(sys).ledger.spec_contains(domain_id),
        final(sys).ledger.resources_of(domain_id).heap_shim == Some(addr),
        final(sys).ledger.resources_of(domain_id).syscall_shim == (if old(sys).ledger.spec_contains(
            domain_id,
        ) {
            old(sys).ledger.resources_of(domain_id).syscall_shim
        } else {
            None::<usize>
        }),
        final(sys).ledger.resources_of(domain_id).task_shim == (if old(sys).ledger.spec_contains(
            domain_id,
        ) {
            old(sys).ledger.resources_of(domain_id).task_shim
        } else {
            None::<usize>
        }),
        final(sys).ledger.pages_of(domain_id) == old(sys).ledger.pages_of(domain_id),
        forall|e: u64|
            final(sys).ledger.spec_contains(e) <==> (old(sys).ledger.spec_contains(e) || e
                == domain_id),
        final(sys).allocator == old(sys).allocator,
        final(sys).blk_crash == old(sys).blk_crash,
        final(sys).registry@ == old(sys).registry@,
        final(sys).next_shim_addr == old(sys).next_shim_addr,
        frames_conserved(*old(sys), *final(sys)),
        final(sys).console@ == old(sys).console@,
        final(sys).timer_ms == old(sys).timer_ms,
        final(sys).constants == old(sys).constants,
        final(sys).device_space@ == old(sys).device_space@,
        final(sys).dtb@ == old(sys).dtb@,
        forall|k: int|
            0 <= k < final(sys).ledger.entries@.len() && final(sys).ledger.entries@[k].0
                != domain_id ==> #[trigger] final(sys).ledger.entries@[k] == old(
                sys,
            ).ledger.entries@[k],
        old(sys).ledger.spec_contains(domain_id) ==> final(sys).ledger.entries@.len() == old(
            sys,
        ).ledger.entries@.len(),
        !old(sys).ledger.spec_contains(domain_id) ==> final(sys).ledger.entries@.len() == old(
            sys,
        ).ledger.entries@.len() + 1 && final(sys).ledger.idx_of(domain_id) == old(
            sys,
        ).ledger.entries@.len(),
{
    sys.ledger.set_heap_shim(domain_id, addr);
    proof {
        register_shim_total_proof(old(sys).ledger, sys.ledger, domain_id);
    }
}

/// Registers the task-shim instance handed to a domain.
pub fn register_domain_taskshim_resource(sys: &mut DomainSyscall, domain_id: u64, addr: usize)
    requires
        old(sys).wf(),
    ensures
        final(sys).wf(),
        final(sys).ledger.spec_contains(domain_id),
        final(sys).ledger.resources_of(domain_id).task_shim == Some(addr),
        final(sys).ledger.resources_of(domain_id).syscall_shim == (if old(sys).ledger.spec_contains(
            domain_id,
        ) {
            old(sys).ledger.resources_of(domain_id).syscall_shim
        } else {
            None::<usize>
        }),
        final(sys).ledger.resources_of(domain_id).heap_shim == (if old(sys).ledger.spec_contains(
            domain_id,
        ) {
            old(sys).ledger.resources_of(domain_id).heap_shim
        } else {
            None::<usize>
        }),
        final(sys).ledger.pages_of(domain_id) == old(sys).ledger.pages_of(domain_id),
        forall|e: u64|
            final(sys).ledger.spec_contains(e) <==> (old(sys).ledger.spec_contains(e) || e
                == domain_id),
        final(sys).allocator == old(sys).allocator,
        final(sys).blk_crash == old(sys).blk_crash,
        final(sys).registry@ == old(sys).registry@,
        final(sys).next_shim_addr == old(sys).next_shim_addr,
        frames_conserved(*old(sys), *final(sys)),
        final(sys).console@ == old(sys).console@,
        final(sys).timer_ms == old(sys).timer_ms,
        final(sys).constants == old(sys).constants,
        final(sys).device_space@ == old(sys).device_space@,
        final(sys).dtb@ == old(sys).dtb@,
        forall|k: int|
            0 <= k < final(sys).ledger.entries@.len() && final(sys).ledger.entries@[k].0
                != domain_id ==> #[trigger] final(sys).ledger.entries@[k] == old(
                sys,
            ).ledger.entries@[k],
        old(sys).ledger.spec_contains(domain_id) ==> final(sys).ledger.entries@.len() == old(
            sys,
        ).ledger.entries@.len(),
        !old(sys).ledger.spec_contains(domain_id) ==> final(sys).ledger.entries@.len() == old(
            sys,
        ).ledger.entries@.len() + 1 && final(sys).ledger.idx_of(domain_id) == old(
            sys,
        ).ledger.entries@.len(),
{
    sys.ledger.set_task_shim(domain_id, addr);
    proof {
        register_shim_total_proof(old(sys).ledger, sys.ledger, domain_id);
    }
}

/// A shim registration leaves the ledger total unchanged: the entry it
/// touches keeps its pages, and a fresh entry holds none.
pub proof fn register_shim_total_proof(pre: ResourceLedger, post: ResourceLedger, d: u64)
    requires
        pre.wf(),
        post.wf(),
        post.spec_contains(d),
        post.pages_of(d) == pre.pages_of(d),
        forall|k: int|
            0 <= k < post.entries@.len() && post.entries@[k].0 != d ==> #[trigger] post.entries@[k]
                == pre.entries@[k],
        pre.spec_contains(d) ==> post.entries@.len() == pre.entries@.len() && post.idx_of(d)
            == pre.idx_of(d),
        !pre.spec_contains(d) ==> post.entries@.len() == pre.entries@.len() + 1 && post.idx_of(d)
            == pre.entries@.len(),
    ensures
        ledger_total(post.entries@) == ledger_total(pre.entries@),
{
    let i = post.idx_of(d);
    lemma_entries_eq_off_key_support(pre.entries@, post.entries@, d, i);
    if pre.spec_contains(d) {
        lemma_ledger_total_update(pre.entries@, post.entries@, i);
    } else {
        assert(post.entries@ =~= pre.entries@.push(post.entries@.last()));
        lemma_ledger_total_push(pre.entries@, post.entries@.last());
        assert(post.entries@.last().1.pages@ == post.pages_of(d));
        assert(pre.pages_of(d) == Seq::<PageSpan>::empty());
    }
}

/// Sums the frame counts of a span list.
pub fn total_of_spans(v: &Vec<PageSpan>) -> (r: usize)
    requires
        spans_total(v@) <= usize::MAX,
    ensures
        r == spans_total(v@),
{
    let mut total: usize = 0;
    let mut i: usize = 0;
    let n = v.len();
    proof {
        crate::ledger::lemma_spans_total_nonneg(v@);
        assert(v@.take(0) =~= Seq::<PageSpan>::empty());
    }
    while i < n
        invariant
            n == v@.len(),
            i <= n,
            total == spans_total(v@.take(i as int)),
            spans_total(v@.take(i as int)) <= spans_total(v@),
            spans_total(v@) <= usize::MAX,
        decreases n - i,
    {
        proof {
            lemma_spans_total_take_step(v@, i as int);
            lemma_spans_total_take_le(v@, i + 1);
        }
        total = total + v[i].count;
        i = i + 1;
    }
    proof {
        assert(v@.take(n as int) =~= v@);
    }
    total
}

} // verus!
