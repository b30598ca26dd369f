//! The proxy layer.
//!
//! One proxy per capability set. A proxy adds no functionality: it makes
//! every cross-boundary call safe. Each call first consults the domain's
//! activation flag and returns the typed crash error without calling in
//! if it is down. Calls that must survive a crash of the callee publish a
//! continuation frame first; the read path of the block proxy is the one
//! wired this way here. Restart reloads the image, replays the recorded
//! init argument against the fresh capability, and swaps it into the
//! slot; calls are serialized with restart through exclusive borrows,
//! which play the role of the slot's reader-writer lock.

use crate::continuation::{ContinuationFrame, ContinuationStack, REGISTER_COUNT};
use crate::domains::{BlkDomain, DeviceInfo, DiskState, BLOCK_SIZE};
use crate::error::{AlienError, AlienResult};
use crate::ledger::spans_total;
use crate::loader::{image_valid, DomainLoader};
use crate::syscall::DomainSyscall;
use vstd::prelude::*;

verus! {

/// One hart: its continuation stack and its integer register file.
pub struct Hart {
    pub stack: ContinuationStack,
    pub regs: Vec<usize>,
}

impl Hart {
    pub open spec fn wf(self) -> bool {
        self.stack.wf() && self.regs@.len() == REGISTER_COUNT
    }

    /// A hart with an empty continuation stack and zeroed registers.
    pub fn new() -> (r: Hart)
        ensures
            r.wf(),
            r.stack.frames@.len() == 0,
    {
        let mut regs: Vec<usize> = Vec::new();
        let mut i: usize = 0;
        while i < REGISTER_COUNT
            invariant
                i <= REGISTER_COUNT,
                regs@.len() == i,
            decreases REGISTER_COUNT - i,
        {
            regs.push(0);
            i = i + 1;
        }
        Hart { stack: ContinuationStack::new(), regs }
    }
}

/// Copies a register file.
pub fn copy_regs(v: &Vec<usize>) -> (r: Vec<usize>)
    ensures
        r@ == v@,
{
    let mut out: Vec<usize> = Vec::new();
    let mut i: usize = 0;
    let n = v.len();
    while i < n
        invariant
            n == v@.len(),
            i <= n,
            out@ == v@.take(i as int),
        decreases n - i,
    {
        out.push(v[i]);
        i = i + 1;
        proof {
            assert(out@ =~= v@.take(i as int));
        }
    }
    proof {
        assert(v@.take(n as int) =~= v@);
    }
    out
}

/// Stub address recorded for the block-read call site: each proxy entry
/// has its own stub matching its signature, and this one returns the
/// crash error in the shape of a block read result.
pub const BLK_READ_ERR_STUB: usize = 0xb10c;

/// The error-returning stub for the block-read call site: entered by the
/// unwind path as if it were `read_block` itself returning.
pub fn blk_domain_proxy_read_err() -> (r: AlienResult<Vec<u8>>)
    ensures
        r == Err::<Vec<u8>, AlienError>(AlienError::DomainCrash),
{
    Err(AlienError::DomainCrash)
}

/// Returns the address of the error-returning stub for the block-read
/// call site, as the trampoline's fixed helper.
pub fn blk_domain_proxy_read_ptr() -> (r: usize)
    ensures
        r == BLK_READ_ERR_STUB,
{
    BLK_READ_ERR_STUB
}

/// The proxy guarding the block-device domain. It holds the loader and
/// the replay record needed to restart, and fronts the device state that
/// survives any crash of the driver.
pub struct BlkDomainProxy {
    pub domain_id: u64,
    /// The slot holding the current capability.
    pub domain: BlkDomain,
    /// Image bytes and resolved entry, kept for restart.
    pub domain_loader: DomainLoader,
    /// The init argument last received, replayed by restart.
    pub device_info: Option<DeviceInfo>,
    /// The hardware the driver drives; its contents outlive the driver.
    pub disk: DiskState,
}

/// The relation between a proxy before `restart` and after: the slot
/// holds a freshly loaded, active, unarmed capability against which the
/// remembered init argument has been replayed exactly once, and the
/// loader, replay record and device state are untouched.
pub open spec fn restart_post(pre: BlkDomainProxy, post: BlkDomainProxy) -> bool {
    &&& post.domain_id == pre.domain_id
    &&& post.domain.domain_id == pre.domain_id
    &&& post.domain.active
    &&& !post.domain.crash_armed
    &&& post.domain.init_log@ == seq![pre.device_info->Some_0]
    &&& post.device_info == pre.device_info
    &&& post.domain_loader.image@ == pre.domain_loader.image@
    &&& post.disk.blocks@ == pre.disk.blocks@
}

/// Everything a caller of the block proxy can observe of it.
pub open spec fn blk_observable(p: BlkDomainProxy) -> (
    bool,
    bool,
    Seq<DeviceInfo>,
    Option<DeviceInfo>,
    Seq<Seq<u8>>,
) {
    (
        p.domain.active,
        p.domain.crash_armed,
        p.domain.init_log@,
        p.device_info,
        p.disk.blocks@.map_values(|b: Vec<u8>| b@),
    )
}

/// `restart(); restart()` leaves observable state identical to one
/// `restart()`: the post-state of a restart is a function of the loader
/// image, the replay record and the device state, and restart preserves
/// all three.
pub proof fn lemma_restart_idempotent(
    p0: BlkDomainProxy,
    p1: BlkDomainProxy,
    p2: BlkDomainProxy,
)
    requires
        restart_post(p0, p1),
        restart_post(p1, p2),
    ensures
        blk_observable(p2) == blk_observable(p1),
{
    assert(p2.disk.blocks@.map_values(|b: Vec<u8>| b@) =~= p1.disk.blocks@.map_values(
        |b: Vec<u8>| b@,
    ));
}

impl BlkDomainProxy {
    /// The proxy is usable: the device state is well formed and the image
    /// it would restart from is valid.
    pub open spec fn wf(self) -> bool {
        &&& self.disk.wf()
        &&& image_valid(self.domain_loader.image@)
        &&& self.domain.domain_id == self.domain_id
    }

    /// A proxy fronting `domain`, keeping `domain_loader` for restart.
    pub fn new(
        domain_id: u64,
        domain: BlkDomain,
        domain_loader: DomainLoader,
        disk: DiskState,
    ) -> (r: BlkDomainProxy)
        requires
            domain.domain_id == domain_id,
        ensures
            r.domain_id == domain_id,
            r.domain == domain,
            r.domain_loader == domain_loader,
            r.device_info is None,
            r.disk == disk,
    {
        BlkDomainProxy { domain_id, domain, domain_loader, device_info: None, disk }
    }

    /// Liveness as the capability itself reports it.
    pub fn is_active(&self) -> (r: bool)
        ensures
            r == self.domain.active,
    {
        self.domain.is_active()
    }

    /// Forwards an interrupt, unless the domain is down.
    pub fn handle_irq(&mut self) -> (r: AlienResult<()>)
        ensures
            *final(self) == *old(self),
            !old(self).domain.active ==> r == Err::<(), AlienError>(AlienError::DomainCrash),
            old(self).domain.active ==> r == Ok::<(), AlienError>(()),
    {
        if !self.domain.is_active() {
            return Err(AlienError::DomainCrash);
        }
        Ok(())
    }

    /// Records the init argument in the replay record, then forwards it.
    pub fn init(&mut self, device_info: DeviceInfo) -> (r: AlienResult<()>)
        ensures
            r == Ok::<(), AlienError>(()),
            final(self).device_info == Some(device_info),
            final(self).domain.init_log@ == old(self).domain.init_log@.push(device_info),
            final(self).domain.active == old(self).domain.active,
            final(self).domain.crash_armed == old(self).domain.crash_armed,
            final(self).domain.domain_id == old(self).domain.domain_id,
            final(self).domain_id == old(self).domain_id,
            final(self).domain_loader == old(self).domain_loader,
            final(self).disk == old(self).disk,
    {
        self.device_info = Some(device_info);
        self.domain.init(device_info);
        Ok(())
    }

    /// Reads one block through the continuation machinery: the caller's
    /// registers and the signature-matched stub are published before the
    /// domain is entered, so a crash mid-call unwinds to the stub and the
    /// caller sees the typed crash error as an ordinary return. On a
    /// crash the domain is marked inactive and its ledger entry reclaimed
    /// before the unwind.
    pub fn read_block(
        &mut self,
        sys: &mut DomainSyscall,
        hart: &mut Hart,
        block: u32,
        data: Vec<u8>,
    ) -> (r: AlienResult<Vec<u8>>)
        requires
            old(self).wf(),
            old(sys).wf(),
            old(hart).wf(),
            data@.len() == BLOCK_SIZE,
            old(self).domain.active && old(self).domain.crash_armed ==> {
                &&& old(sys).ledger.spec_contains(old(self).domain_id)
                &&& old(sys).ledger.resources_of(old(self).domain_id).syscall_shim is Some
                &&& old(sys).ledger.resources_of(old(self).domain_id).heap_shim is Some
                &&& old(sys).ledger.resources_of(old(self).domain_id).task_shim is Some
                &&& spans_total(old(sys).ledger.pages_of(old(self).domain_id)) + old(
                    sys,
                ).allocator.free_frames <= usize::MAX
            },
        ensures
            final(self).wf(),
            final(sys).wf(),
            final(hart).wf(),
            crate::syscall::frames_conserved(*old(sys), *final(sys)),
            final(hart).stack.frames@ == old(hart).stack.frames@,
            final(self).disk.blocks@ == old(self).disk.blocks@,
            final(self).device_info == old(self).device_info,
            final(self).domain_loader == old(self).domain_loader,
            final(self).domain_id == old(self).domain_id,
            !old(self).domain.active ==> {
                &&& r == Err::<Vec<u8>, AlienError>(AlienError::DomainCrash)
                &&& *final(self) == *old(self)
                &&& *final(sys) == *old(sys)
                &&& *final(hart) == *old(hart)
            },
            old(self).domain.active && old(self).domain.crash_armed ==> {
                &&& r == Err::<Vec<u8>, AlienError>(AlienError::DomainCrash)
                &&& !final(self).domain.active
                &&& !final(sys).ledger.spec_contains(old(self).domain_id)
                &&& final(sys).allocator.free_frames == old(sys).allocator.free_frames
                    + spans_total(old(sys).ledger.pages_of(old(self).domain_id))
                &&& !final(sys).blk_crash
                &&& final(sys).registry@ == old(sys).registry@
                &&& forall|e: u64|
                    e != old(self).domain_id ==> (final(sys).ledger.spec_contains(e) == old(
                        sys,
                    ).ledger.spec_contains(e))
                &&& forall|e: u64|
                    e != old(self).domain_id && final(sys).ledger.spec_contains(e)
                        ==> final(sys).ledger.entries@[final(sys).ledger.idx_of(e)]
                            == old(sys).ledger.entries@[old(sys).ledger.idx_of(e)]
            },
            old(self).domain.active && !old(self).domain.crash_armed ==> {
                &&& final(self).domain == old(self).domain
                &&& *final(sys) == *old(sys)
                &&& (block as int) < old(self).disk.blocks@.len() ==> r is Ok && r->Ok_0@ == old(
                    self,
                ).disk.blocks@[block as int]@
                &&& (block as int) >= old(self).disk.blocks@.len() ==> r == Err::<
                    Vec<u8>,
                    AlienError,
                >(AlienError::InvalidArg)
            },
    {
        if !self.domain.is_active() {
            return Err(AlienError::DomainCrash);
        }
        blk_domain_proxy_read_trampoline(self, sys, hart, block, data)
    }

    /// Writes one block; short queries go straight through the guard.
    pub fn write_block(&mut self, block: u32, data: &Vec<u8>) -> (r: AlienResult<usize>)
        requires
            old(self).wf(),
            data@.len() == BLOCK_SIZE,
        ensures
            final(self).wf(),
            final(self).domain == old(self).domain,
            final(self).device_info == old(self).device_info,
            final(self).domain_loader == old(self).domain_loader,
            final(self).domain_id == old(self).domain_id,
            final(self).disk.blocks@.len() == old(self).disk.blocks@.len(),
            !old(self).domain.active ==> r == Err::<usize, AlienError>(AlienError::DomainCrash)
                && *final(self) == *old(self),
            old(self).domain.active && (block as int) < old(self).disk.blocks@.len() ==> {
                &&& r == Ok::<usize, AlienError>(BLOCK_SIZE)
                &&& final(self).disk.blocks@[block as int]@ == data@
                &&& forall|k: int|
                    0 <= k < old(self).disk.blocks@.len() && k != block as int
                        ==> #[trigger] final(self).disk.blocks@[k] == old(self).disk.blocks@[k]
            },
            old(self).domain.active && (block as int) >= old(self).disk.blocks@.len() ==> r
                == Err::<usize, AlienError>(AlienError::InvalidArg) && *final(self) == *old(self),
    {
        if !self.domain.is_active() {
            return Err(AlienError::DomainCrash);
        }
        let b = block as usize;
        if b >= self.disk.blocks.len() {
            return Err(AlienError::InvalidArg);
        }
        self.disk.write_block(b, data);
        Ok(BLOCK_SIZE)
    }

    /// The device capacity in bytes.
    pub fn get_capacity(&self) -> (r: AlienResult<u64>)
        requires
            self.disk.blocks@.len() * BLOCK_SIZE <= u64::MAX,
        ensures
            !self.domain.active ==> r == Err::<u64, AlienError>(AlienError::DomainCrash),
            self.domain.active ==> r == Ok::<u64, AlienError>(
                (self.disk.blocks@.len() * BLOCK_SIZE) as u64,
            ),
    {
        if !self.domain.is_active() {
            return Err(AlienError::DomainCrash);
        }
        let blocks = self.disk.blocks.len() as u64;
        proof {
            assert(blocks * BLOCK_SIZE as u64 == self.disk.blocks@.len() * BLOCK_SIZE);
        }
        Ok(blocks * (BLOCK_SIZE as u64))
    }

    /// Flushes the device, unless the domain is down.
    pub fn flush(&mut self) -> (r: AlienResult<()>)
        ensures
            *final(self) == *old(self),
            !old(self).domain.active ==> r == Err::<(), AlienError>(AlienError::DomainCrash),
            old(self).domain.active ==> r == Ok::<(), AlienError>(()),
    {
        if !self.domain.is_active() {
            return Err(AlienError::DomainCrash);
        }
        Ok(())
    }

    /// Atomically hot-swaps the failed capability for a freshly loaded
    /// one: reloads the image, invokes the new entry (handing it freshly
    /// registered shim objects), replays the remembered init argument,
    /// and swaps the slot. The old capability value is leaked rather than
    /// dropped: its backing pages were already reclaimed by the ledger
    /// during the crash, so dropping it would touch freed memory.
    pub fn restart(&mut self, sys: &mut DomainSyscall) -> (r: bool)
        requires
            old(self).wf(),
            old(sys).wf(),
            old(self).device_info is Some,
            old(sys).next_shim_addr + 3 <= usize::MAX,
        ensures
            r == true,
            final(self).wf(),
            final(sys).wf(),
            restart_post(*old(self), *final(self)),
            final(sys).ledger.spec_contains(old(self).domain_id),
            final(sys).ledger.resources_of(old(self).domain_id).syscall_shim is Some,
            final(sys).ledger.resources_of(old(self).domain_id).heap_shim is Some,
            final(sys).ledger.resources_of(old(self).domain_id).task_shim is Some,
            final(sys).ledger.pages_of(old(self).domain_id) == old(sys).ledger.pages_of(
                old(self).domain_id,
            ),
            forall|e: u64|
                final(sys).ledger.spec_contains(e) <==> (old(sys).ledger.spec_contains(e) || e
                    == old(self).domain_id),
            final(sys).allocator == old(sys).allocator,
            final(sys).blk_crash == old(sys).blk_crash,
            final(sys).registry@ == old(sys).registry@,
            crate::syscall::frames_conserved(*old(sys), *final(sys)),
            forall|k: int|
                0 <= k < final(sys).ledger.entries@.len() && final(sys).ledger.entries@[k].0
                    != old(self).domain_id ==> #[trigger] final(sys).ledger.entries@[k] == old(
                    sys,
                ).ledger.entries@[k],
            old(sys).ledger.spec_contains(old(self).domain_id) ==> final(sys).ledger.entries@.len() == old(sys).ledger.entries@.len(),
            !old(sys).ledger.spec_contains(old(self).domain_id) ==> final(sys).ledger.entries@.len() == old(sys).ledger.entries@.len() + 1,
            forall|k: int|
                old(sys).ledger.entries@.len() <= k < final(sys).ledger.entries@.len()
                    ==> final(sys).ledger.entries@[k].0 == old(self).domain_id,
    {
        // Exclusive access to the slot: the &mut borrow is the writer
        // side of the slot's lock, so in-flight reads have drained.
        let reloaded = self.domain_loader.reload();
        if reloaded.is_err() {
            // A valid image always reloads; this branch cannot run.
            proof {
                assert(false);
            }
            return false;
        }
        // Invoke the fresh entry: the new instance is handed freshly
        // built shim objects, registered for later reclaim.
        let ghost pre = *sys;
        let a1 = sys.alloc_shim_addr();
        crate::syscall::register_domain_syscall_resource(sys, self.domain_id, a1);
        let ghost s1 = sys.ledger;
        let a2 = sys.alloc_shim_addr();
        crate::syscall::register_domain_heap_resource(sys, self.domain_id, a2);
        let ghost s2 = sys.ledger;
        let a3 = sys.alloc_shim_addr();
        crate::syscall::register_domain_taskshim_resource(sys, self.domain_id, a3);
        proof {
            let post = sys.ledger;
            assert forall|k: int|
                0 <= k < post.entries@.len() && post.entries@[k].0 != self.domain_id implies #[trigger] post.entries@[k]
                == pre.ledger.entries@[k] by {
                assert(post.entries@[k] == s2.entries@[k]);
                assert(s2.entries@[k] == s1.entries@[k]);
                assert(s1.entries@[k] == pre.ledger.entries@[k]);
            }
            assert forall|k: int|
                pre.ledger.entries@.len() <= k < post.entries@.len() implies post.entries@[k].0
                == self.domain_id by {
                assert(k == pre.ledger.entries@.len());
                assert(s1.spec_contains(self.domain_id));
                assert(s1.idx_of(self.domain_id) == k);
                assert(0 <= s1.idx_of(self.domain_id) < s1.entries@.len()
                    && s1.entries@[s1.idx_of(self.domain_id)].0 == self.domain_id);
                if post.entries@[k].0 != self.domain_id {
                    assert(post.entries@[k] == s2.entries@[k]);
                    assert(s2.entries@[k] == s1.entries@[k]);
                }
            }
        }
        let mut new_domain = BlkDomain::fresh(self.domain_id);
        // Replay the remembered init argument against the new capability.
        let info = match self.device_info {
            Some(info) => info,
            None => {
                // The replay record is present by contract.
                proof {
                    assert(false);
                }
                return false;
            },
        };
        new_domain.init(info);
        // Swap into the slot; the old instance is leaked, not dropped.
        self.domain = new_domain;
        proof {
            assert(self.domain.init_log@ =~= seq![info]);
        }
        true
    }

}

/// The continuation trampoline of the block-read call site. It performs
/// the cross-boundary call protocol: save the hart's integer registers,
/// fetch the signature-matched stub address through the fixed helper,
/// publish the frame, then branch to the true target, which pops the
/// frame on normal return.
fn blk_domain_proxy_read_trampoline(
    proxy: &mut BlkDomainProxy,
    sys: &mut DomainSyscall,
    hart: &mut Hart,
    block: u32,
    data: Vec<u8>,
) -> (r: AlienResult<Vec<u8>>)
    requires
        old(proxy).wf(),
        old(sys).wf(),
        old(hart).wf(),
        old(proxy).domain.active,
        data@.len() == BLOCK_SIZE,
        old(proxy).domain.crash_armed ==> {
            &&& old(sys).ledger.spec_contains(old(proxy).domain_id)
            &&& old(sys).ledger.resources_of(old(proxy).domain_id).syscall_shim is Some
            &&& old(sys).ledger.resources_of(old(proxy).domain_id).heap_shim is Some
            &&& old(sys).ledger.resources_of(old(proxy).domain_id).task_shim is Some
            &&& spans_total(old(sys).ledger.pages_of(old(proxy).domain_id)) + old(
                sys,
            ).allocator.free_frames <= usize::MAX
        },
    ensures
        final(proxy).wf(),
        final(sys).wf(),
        final(hart).wf(),
        crate::syscall::frames_conserved(*old(sys), *final(sys)),
        final(hart).stack.frames@ == old(hart).stack.frames@,
        final(hart).regs@ == old(hart).regs@,
        final(proxy).disk.blocks@ == old(proxy).disk.blocks@,
        final(proxy).device_info == old(proxy).device_info,
        final(proxy).domain_loader == old(proxy).domain_loader,
        final(proxy).domain_id == old(proxy).domain_id,
        old(proxy).domain.crash_armed ==> {
            &&& r == Err::<Vec<u8>, AlienError>(AlienError::DomainCrash)
            &&& !final(proxy).domain.active
            &&& !final(sys).ledger.spec_contains(old(proxy).domain_id)
            &&& final(sys).allocator.free_frames == old(sys).allocator.free_frames + spans_total(
                old(sys).ledger.pages_of(old(proxy).domain_id),
            )
            &&& !final(sys).blk_crash
            &&& final(sys).registry@ == old(sys).registry@
            &&& forall|e: u64|
                e != old(proxy).domain_id ==> (final(sys).ledger.spec_contains(e) == old(
                    sys,
                ).ledger.spec_contains(e))
            &&& forall|e: u64|
                e != old(proxy).domain_id && final(sys).ledger.spec_contains(e)
                    ==> final(sys).ledger.entries@[final(sys).ledger.idx_of(e)]
                        == old(sys).ledger.entries@[old(sys).ledger.idx_of(e)]
        },
        !old(proxy).domain.crash_armed ==> {
            &&& final(proxy).domain == old(proxy).domain
            &&& *final(sys) == *old(sys)
            &&& (block as int) < old(proxy).disk.blocks@.len() ==> r is Ok && r->Ok_0@ == old(
                proxy,
            ).disk.blocks@[block as int]@
            &&& (block as int) >= old(proxy).disk.blocks@.len() ==> r == Err::<Vec<u8>, AlienError>(
                AlienError::InvalidArg,
            )
        },
{
    // Save the full integer register file and fetch the stub address for
    // this call site.
    let saved = copy_regs(&hart.regs);
    let stub = blk_domain_proxy_read_ptr();
    let frame = ContinuationFrame { regs: saved, stub };
    // Publish the frame, then enter the true target with the argument
    // registers restored.
    hart.stack.register_cont(frame);
    blk_domain_proxy_read(proxy, sys, hart, block, data)
}

/// The true target of the block-read call site. A normal return (success
/// or a device error) pops the continuation; a panic inside the domain
/// deactivates it, reclaims through the capability surface, and unwinds
/// to the stub, whose result is returned in the caller's stead.
fn blk_domain_proxy_read(
    proxy: &mut BlkDomainProxy,
    sys: &mut DomainSyscall,
    hart: &mut Hart,
    block: u32,
    data: Vec<u8>,
) -> (r: AlienResult<Vec<u8>>)
    requires
        old(proxy).wf(),
        old(sys).wf(),
        old(hart).wf(),
        old(proxy).domain.active,
        old(hart).stack.frames@.len() > 0,
        old(hart).stack.frames@.last().stub == BLK_READ_ERR_STUB,
        data@.len() == BLOCK_SIZE,
        old(proxy).domain.crash_armed ==> {
            &&& old(sys).ledger.spec_contains(old(proxy).domain_id)
            &&& old(sys).ledger.resources_of(old(proxy).domain_id).syscall_shim is Some
            &&& old(sys).ledger.resources_of(old(proxy).domain_id).heap_shim is Some
            &&& old(sys).ledger.resources_of(old(proxy).domain_id).task_shim is Some
            &&& spans_total(old(sys).ledger.pages_of(old(proxy).domain_id)) + old(
                sys,
            ).allocator.free_frames <= usize::MAX
        },
    ensures
        final(proxy).wf(),
        final(sys).wf(),
        final(hart).wf(),
        crate::syscall::frames_conserved(*old(sys), *final(sys)),
        final(hart).stack.frames@ == old(hart).stack.frames@.drop_last(),
        final(hart).regs@ == old(hart).regs@,
        final(proxy).disk.blocks@ == old(proxy).disk.blocks@,
        final(proxy).device_info == old(proxy).device_info,
        final(proxy).domain_loader == old(proxy).domain_loader,
        final(proxy).domain_id == old(proxy).domain_id,
        old(proxy).domain.crash_armed ==> {
            &&& r == Err::<Vec<u8>, AlienError>(AlienError::DomainCrash)
            &&& !final(proxy).domain.active
            &&& !final(sys).ledger.spec_contains(old(proxy).domain_id)
            &&& final(sys).allocator.free_frames == old(sys).allocator.free_frames + spans_total(
                old(sys).ledger.pages_of(old(proxy).domain_id),
            )
            &&& !final(sys).blk_crash
            &&& final(sys).registry@ == old(sys).registry@
            &&& forall|e: u64|
                e != old(proxy).domain_id ==> (final(sys).ledger.spec_contains(e) == old(
                    sys,
                ).ledger.spec_contains(e))
            &&& forall|e: u64|
                e != old(proxy).domain_id && final(sys).ledger.spec_contains(e)
                    ==> final(sys).ledger.entries@[final(sys).ledger.idx_of(e)]
                        == old(sys).ledger.entries@[old(sys).ledger.idx_of(e)]
        },
        !old(proxy).domain.crash_armed ==> {
            &&& final(proxy).domain == old(proxy).domain
            &&& *final(sys) == *old(sys)
            &&& (block as int) < old(proxy).disk.blocks@.len() ==> r is Ok && r->Ok_0@ == old(
                proxy,
            ).disk.blocks@[block as int]@
            &&& (block as int) >= old(proxy).disk.blocks@.len() ==> r == Err::<Vec<u8>, AlienError>(
                AlienError::InvalidArg,
            )
        },
{
    if proxy.domain.crash_armed {
        // The domain panics mid-call. Its panic handler marks it
        // inactive, reclaims its resources through the capability
        // surface, and unwinds to the frame published for this call.
        proxy.domain.deactivate();
        let frame = sys.sys_backtrace(proxy.domain_id, &mut hart.stack);
        // Control resumes at the stub recorded in the frame; its result
        // is delivered as if the call itself had returned.
        proof {
            assert(frame.stub == BLK_READ_ERR_STUB);
        }
        return blk_domain_proxy_read_err();
    }
    let b = block as usize;
    let res: AlienResult<Vec<u8>> = if b < proxy.disk.blocks.len() {
        // Fill the caller's buffer with the block and hand it back.
        let mut out = data;
        let mut j: usize = 0;
        while j < BLOCK_SIZE
            invariant
                j <= BLOCK_SIZE,
                out@.len() == BLOCK_SIZE,
                0 <= b < proxy.disk.blocks@.len(),
                proxy.disk.wf(),
                forall|k: int|
                    0 <= k < j ==> #[trigger] out@[k] == proxy.disk.blocks@[b as int]@[k],
            decreases BLOCK_SIZE - j,
        {
            let byte = proxy.disk.blocks[b][j];
            out.set(j, byte);
            j = j + 1;
        }
        proof {
            assert(out@ =~= proxy.disk.blocks@[b as int]@);
        }
        Ok(out)
    } else {
        Err(AlienError::InvalidArg)
    };
    hart.stack.pop_continuation();
    res
}

} // verus!
