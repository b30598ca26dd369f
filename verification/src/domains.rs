//! Model capabilities, one per capability set.
//!
//! Concrete drivers are collaborators outside the core; each capability
//! here carries exactly the state the core's contracts speak about: the
//! activation flag that every proxy consults, the init arguments received
//! (so restart replay is observable), and the device state the operations
//! read and write. The block driver also carries the armed-crash test
//! hook that makes its next read panic.

use crate::libsyscall::DomainIdent;
use vstd::prelude::*;

verus! {

/// Bytes in one disk block.
pub const BLOCK_SIZE: usize = 512;

/// The device description a driver is initialized with.
#[derive(Clone, Copy, Debug, PartialEq, Eq, Structural)]
pub struct DeviceInfo {
    /// Start of the device's register space.
    pub base: usize,
    /// Size of the device's register space.
    pub size: usize,
    /// The interrupt line of the device.
    pub irq: usize,
}

/// Copies a byte vector.
pub fn copy_bytes(v: &Vec<u8>) -> (r: Vec<u8>)
    ensures
        r@ == v@,
{
    let mut out: Vec<u8> = Vec::new();
    let mut i: usize = 0;
    let n = v.len();
    while i < n
        invariant
            n == v@.len(),
            i <= n,
            out@ == v@.take(i as int),
        decreases n - i,
    {
        out.push(v[i]);
        i = i + 1;
        proof {
            assert(out@ =~= v@.take(i as int));
        }
    }
    proof {
        assert(v@.take(n as int) =~= v@);
    }
    out
}

/// The block device's persistent state: it belongs to the hardware, so it
/// survives any crash or restart of the driver domain.
pub struct DiskState {
    pub blocks: Vec<Vec<u8>>,
}

impl DiskState {
    /// Every block is exactly one block long.
    pub open spec fn wf(self) -> bool {
        forall|b: int| 0 <= b < self.blocks@.len() ==> (#[trigger] self.blocks@[b])@.len()
            == BLOCK_SIZE
    }

    pub open spec fn capacity_blocks(self) -> int {
        self.blocks@.len() as int
    }

    /// A zeroed disk of `blocks` blocks.
    pub fn new(blocks: usize) -> (r: DiskState)
        ensures
            r.wf(),
            r.blocks@.len() == blocks,
            forall|b: int, j: int|
                0 <= b < blocks && 0 <= j < BLOCK_SIZE ==> #[trigger] (r.blocks@[b]@[j]) == 0,
    {
        let mut bs: Vec<Vec<u8>> = Vec::new();
        let mut i: usize = 0;
        while i < blocks
            invariant
                i <= blocks,
                bs@.len() == i,
                forall|b: int| 0 <= b < i ==> (#[trigger] bs@[b])@.len() == BLOCK_SIZE,
                forall|b: int, j: int|
                    0 <= b < i && 0 <= j < BLOCK_SIZE ==> #[trigger] (bs@[b]@[j]) == 0,
            decreases blocks - i,
        {
            let mut blk: Vec<u8> = Vec::new();
            let mut j: usize = 0;
            while j < BLOCK_SIZE
                invariant
                    j <= BLOCK_SIZE,
                    blk@.len() == j,
                    forall|k: int| 0 <= k < j ==> #[trigger] blk@[k] == 0,
                decreases BLOCK_SIZE - j,
            {
                blk.push(0);
                j = j + 1;
            }
            bs.push(blk);
            i = i + 1;
        }
        DiskState { blocks: bs }
    }

    /// Reads one block into a fresh buffer.
    pub fn read_block(&self, b: usize) -> (r: Vec<u8>)
        requires
            b < self.blocks@.len(),
        ensures
            r@ == self.blocks@[b as int]@,
    {
        copy_bytes(&self.blocks[b])
    }

    /// Overwrites one block.
    pub fn write_block(&mut self, b: usize, data: &Vec<u8>)
        requires
            old(self).wf(),
            b < old(self).blocks@.len(),
            data@.len() == BLOCK_SIZE,
        ensures
            final(self).wf(),
            final(self).blocks@.len() == old(self).blocks@.len(),
            final(self).blocks@[b as int]@ == data@,
            forall|k: int|
                0 <= k < old(self).blocks@.len() && k != b ==> #[trigger] final(self).blocks@[k]
                    == old(self).blocks@[k],
    {
        let copy = copy_bytes(data);
        self.blocks.set(b, copy);
    }
}

/// The block driver instance inside the proxy slot.
pub struct BlkDomain {
    pub domain_id: u64,
    /// The single source of truth for liveness.
    pub active: bool,
    /// Test-only hook: when armed, the next read panics inside the domain.
    pub crash_armed: bool,
    /// Every init argument this instance has received, in order.
    pub init_log: Vec<DeviceInfo>,
}

impl BlkDomain {
    /// A freshly loaded instance: active, unarmed, no init received.
    pub fn fresh(domain_id: u64) -> (r: BlkDomain)
        ensures
            r.domain_id == domain_id,
            r.active,
            !r.crash_armed,
            r.init_log@.len() == 0,
    {
        BlkDomain { domain_id, active: true, crash_armed: false, init_log: Vec::new() }
    }

    /// The driver records the device description it is bound to.
    pub fn init(&mut self, info: DeviceInfo)
        ensures
            final(self).init_log@ == old(self).init_log@.push(info),
            final(self).active == old(self).active,
            final(self).crash_armed == old(self).crash_armed,
            final(self).domain_id == old(self).domain_id,
    {
        self.init_log.push(info);
    }

    pub fn is_active(&self) -> (r: bool)
        ensures
            r == self.active,
    {
        self.active
    }

    /// Marks the instance crashed, as the panic handler does.
    pub fn deactivate(&mut self)
        ensures
            final(self).active == false,
            final(self).crash_armed == old(self).crash_armed,
            final(self).init_log@ == old(self).init_log@,
            final(self).domain_id == old(self).domain_id,
    {
        self.active = false;
    }

    /// Test-only hook: makes the next read panic inside the domain.
    pub fn arm_crash(&mut self)
        ensures
            final(self).crash_armed == true,
            final(self).active == old(self).active,
            final(self).init_log@ == old(self).init_log@,
            final(self).domain_id == old(self).domain_id,
    {
        self.crash_armed = true;
    }
}

/// A shadow block driver: same shape as the block device, composed atop
/// the one found by peer lookup under the recorded name.
pub struct ShadowBlockDomain {
    pub active: bool,
    /// The peer name received at init, resolved on demand at each call.
    pub backing: Option<DomainIdent>,
}

impl ShadowBlockDomain {
    pub fn fresh() -> (r: ShadowBlockDomain)
        ensures
            r.active,
            r.backing is None,
    {
        ShadowBlockDomain { active: true, backing: None }
    }
}

/// A wall-clock reading as the RTC reports it.
#[derive(Clone, Copy, Debug, PartialEq, Eq, Structural)]
pub struct RtcTime {
    pub year: u32,
    pub month: u32,
    pub day: u32,
    pub hour: u32,
    pub minute: u32,
    pub second: u32,
}

/// The RTC driver: reports the device's current time.
pub struct RtcDomain {
    pub active: bool,
    pub now: RtcTime,
    pub init_log: Vec<DeviceInfo>,
    pub irq_count: u64,
}

impl RtcDomain {
    pub fn fresh(now: RtcTime) -> (r: RtcDomain)
        ensures
            r.active,
            r.now == now,
            r.init_log@.len() == 0,
            r.irq_count == 0,
    {
        RtcDomain { active: true, now, init_log: Vec::new(), irq_count: 0 }
    }
}

/// The UART driver: a receive queue, a transmit log, and the receive
/// interrupt mask.
pub struct UartDomain {
    pub active: bool,
    /// Bytes received and not yet fetched, oldest first.
    pub rx: Vec<u8>,
    /// Everything ever transmitted, in order.
    pub tx: Vec<u8>,
    pub rx_irq_enabled: bool,
    pub init_log: Vec<DeviceInfo>,
    pub irq_count: u64,
}

impl UartDomain {
    pub fn fresh() -> (r: UartDomain)
        ensures
            r.active,
            r.rx@.len() == 0,
            r.tx@.len() == 0,
            !r.rx_irq_enabled,
            r.init_log@.len() == 0,
            r.irq_count == 0,
    {
        UartDomain {
            active: true,
            rx: Vec::new(),
            tx: Vec::new(),
            rx_irq_enabled: false,
            init_log: Vec::new(),
            irq_count: 0,
        }
    }
}

/// The GPU driver: a framebuffer and a flush counter.
pub struct GPUDomain {
    pub active: bool,
    pub fb: Vec<u8>,
    pub flush_count: u64,
    pub init_log: Vec<DeviceInfo>,
}

impl GPUDomain {
    pub fn fresh(fb_len: usize) -> (r: GPUDomain)
        ensures
            r.active,
            r.fb@.len() == fb_len,
            forall|i: int| 0 <= i < fb_len ==> #[trigger] r.fb@[i] == 0,
            r.flush_count == 0,
            r.init_log@.len() == 0,
    {
        let mut fb: Vec<u8> = Vec::new();
        let mut i: usize = 0;
        while i < fb_len
            invariant
                i <= fb_len,
                fb@.len() == i,
                forall|k: int| 0 <= k < i ==> #[trigger] fb@[k] == 0,
            decreases fb_len - i,
        {
            fb.push(0);
            i = i + 1;
        }
        GPUDomain { active: true, fb, flush_count: 0, init_log: Vec::new() }
    }
}

/// The PLIC driver: which device domain serves each external interrupt.
pub struct PlicDomain {
    pub active: bool,
    pub table: Vec<(usize, DomainIdent)>,
    pub init_log: Vec<DeviceInfo>,
    pub irq_count: u64,
}

impl PlicDomain {
    pub fn fresh() -> (r: PlicDomain)
        ensures
            r.active,
            r.table@.len() == 0,
            r.init_log@.len() == 0,
            r.irq_count == 0,
    {
        PlicDomain { active: true, table: Vec::new(), init_log: Vec::new(), irq_count: 0 }
    }
}

/// The devices-enumeration driver: the probed device table and the
/// device-tree blob it probed from.
pub struct DevicesDomain {
    pub active: bool,
    pub devices: Vec<DeviceInfo>,
    pub dtb: Vec<u8>,
}

impl DevicesDomain {
    pub fn fresh(devices: Vec<DeviceInfo>) -> (r: DevicesDomain)
        ensures
            r.active,
            r.devices@ == devices@,
            r.dtb@.len() == 0,
    {
        DevicesDomain { active: true, devices, dtb: Vec::new() }
    }
}

/// The task-management domain: the state of the current task it reports.
pub struct TaskDomain {
    pub active: bool,
    pub current_tid: usize,
    pub current_pid: usize,
    pub current_ppid: usize,
    pub satp: usize,
    pub trap_frame_virt: usize,
    pub trap_frame_phy: usize,
    pub heap_start: usize,
    pub heap_end: usize,
    pub brk: usize,
    pub fds: Vec<u64>,
    /// Tids waiting to be woken.
    pub waiting: Vec<usize>,
}

impl TaskDomain {
    pub fn fresh() -> (r: TaskDomain)
        ensures
            r.active,
            r.current_tid == 0,
            r.current_pid == 0,
            r.current_ppid == 0,
            r.fds@.len() == 0,
            r.waiting@.len() == 0,
    {
        TaskDomain {
            active: true,
            current_tid: 0,
            current_pid: 0,
            current_ppid: 0,
            satp: 0,
            trap_frame_virt: 0,
            trap_frame_phy: 0,
            heap_start: 0,
            heap_end: 0,
            brk: 0,
            fds: Vec::new(),
            waiting: Vec::new(),
        }
    }
}

/// The syscall-dispatch domain: records every call it serves.
pub struct SysCallDomain {
    pub active: bool,
    /// Syscall ids served, in order.
    pub served: Vec<usize>,
}

impl SysCallDomain {
    pub fn fresh() -> (r: SysCallDomain)
        ensures
            r.active,
            r.served@.len() == 0,
    {
        SysCallDomain { active: true, served: Vec::new() }
    }
}

/// A filesystem domain: its capability set is empty beyond liveness.
pub struct FsDomain {
    pub active: bool,
}

impl FsDomain {
    pub fn fresh() -> (r: FsDomain)
        ensures
            r.active,
    {
        FsDomain { active: true }
    }
}

/// The VFS domain: its capability set is empty beyond liveness.
pub struct VfsDomain {
    pub active: bool,
}

impl VfsDomain {
    pub fn fresh() -> (r: VfsDomain)
        ensures
            r.active,
    {
        VfsDomain { active: true }
    }
}

/// The cache block driver: byte-offset reads and writes served through
/// the block domain found by peer lookup under the recorded name.
pub struct CacheBlkDomain {
    pub active: bool,
    /// The peer name received at init.
    pub backing: Option<DomainIdent>,
}

impl CacheBlkDomain {
    pub fn fresh() -> (r: CacheBlkDomain)
        ensures
            r.active,
            r.backing is None,
    {
        CacheBlkDomain { active: true, backing: None }
    }
}

/// The DMA layer the GPU driver gives its transport: contiguous frames
/// handed out on demand, each allocation remembered by its physical
/// address so later lookups and releases find it. Addresses are mapped
/// one to one in this kernel, so the virtual address of an allocation is
/// its physical one.
pub struct HalImpl {
    /// The frame allocator backing DMA memory.
    pub allocator: crate::mem::FrameAllocator,
    /// Live DMA allocations: (physical address, frame count).
    pub page_record: Vec<(usize, usize)>,
}

impl HalImpl {
    /// Physical addresses of live allocations are pairwise distinct.
    pub open spec fn wf(self) -> bool {
        forall|i: int, j: int|
            0 <= i < j < self.page_record@.len() ==> self.page_record@[i].0
                != self.page_record@[j].0
    }

    pub open spec fn spec_contains(self, paddr: usize) -> bool {
        exists|i: int| 0 <= i < self.page_record@.len() && self.page_record@[i].0 == paddr
    }

    /// The position of the allocation at `paddr`, where one exists.
    pub open spec fn idx_of(self, paddr: usize) -> int {
        choose|i: int| 0 <= i < self.page_record@.len() && self.page_record@[i].0 == paddr
    }

    pub fn new(allocator: crate::mem::FrameAllocator) -> (r: HalImpl)
        ensures
            r.wf(),
            r.allocator == allocator,
            r.page_record@.len() == 0,
    {
        HalImpl { allocator, page_record: Vec::new() }
    }

    /// Finds the position of the allocation at `paddr`.
    fn find(&self, paddr: usize) -> (r: Option<usize>)
        ensures
            match r {
                Some(i) => i < self.page_record@.len() && self.page_record@[i as int].0 == paddr
                    && self.spec_contains(paddr),
                None => !self.spec_contains(paddr),
            },
    {
        let mut i: usize = 0;
        while i < self.page_record.len()
            invariant
                i <= self.page_record@.len(),
                forall|k: int| 0 <= k < i ==> self.page_record@[k].0 != paddr,
            decreases self.page_record@.len() - i,
        {
            if self.page_record[i].0 == paddr {
                return Some(i);
            }
            i = i + 1;
        }
        None
    }

    /// Allocates `pages` contiguous frames for a DMA buffer and records
    /// them; returns the buffer's physical and virtual addresses, which
    /// coincide.
    pub fn dma_alloc(&mut self, pages: usize) -> (r: (usize, usize))
        requires
            old(self).wf(),
            pages >= 1,
            pages <= old(self).allocator.free_frames,
            old(self).allocator.next_frame + pages <= usize::MAX,
            !old(self).spec_contains(old(self).allocator.next_frame),
        ensures
            final(self).wf(),
            r.0 == old(self).allocator.next_frame,
            r.1 == r.0,
            final(self).spec_contains(r.0),
            final(self).page_record@ == old(self).page_record@.push((r.0, pages)),
            final(self).allocator.free_frames == old(self).allocator.free_frames - pages,
    {
        let start = self.allocator.alloc_frames(pages);
        let ghost pre = self.page_record@;
        self.page_record.push((start, pages));
        proof {
            assert(self.page_record@[pre.len() as int].0 == start);
            assert forall|x: int, y: int|
                0 <= x < y < self.page_record@.len() implies self.page_record@[x].0
                != self.page_record@[y].0 by {
                if y < pre.len() {
                    assert(self.page_record@[x] == pre[x]);
                    assert(self.page_record@[y] == pre[y]);
                } else {
                    assert(self.page_record@[x] == pre[x]);
                    assert(pre[x].0 != start);
                }
            }
        }
        (start, start)
    }

    /// Releases the DMA buffer at `paddr`, returning its frames.
    pub fn dma_dealloc(&mut self, paddr: usize) -> (r: i32)
        requires
            old(self).wf(),
            old(self).spec_contains(paddr),
            old(self).allocator.free_frames + old(self).page_record@[old(self).idx_of(paddr)].1
                <= usize::MAX,
        ensures
            r == 0,
            final(self).wf(),
            !final(self).spec_contains(paddr),
            final(self).page_record@.len() == old(self).page_record@.len() - 1,
            final(self).allocator.free_frames == old(self).allocator.free_frames + old(
                self,
            ).page_record@[old(self).idx_of(paddr)].1,
    {
        let found = self.find(paddr);
        match found {
            Some(i) => {
                proof {
                    assert(self.idx_of(paddr) == i) by {
                        let j = self.idx_of(paddr);
                        assert(0 <= j < self.page_record@.len() && self.page_record@[j].0
                            == paddr);
                        if j < i {
                            assert(self.page_record@[j].0 != self.page_record@[i as int].0);
                        } else if j > i {
                            assert(self.page_record@[i as int].0 != self.page_record@[j].0);
                        }
                    }
                }
                let ghost pre = self.page_record@;
                let (_, pages) = self.page_record.remove(i);
                self.allocator.free_frames_back(pages);
                proof {
                    assert forall|x: int, y: int|
                        0 <= x < y < self.page_record@.len() implies self.page_record@[x].0
                        != self.page_record@[y].0 by {
                        if y < i {
                        } else if x < i {
                            assert(self.page_record@[y] == pre[y + 1]);
                        } else {
                            assert(self.page_record@[x] == pre[x + 1]);
                            assert(self.page_record@[y] == pre[y + 1]);
                        }
                    }
                    assert(!self.spec_contains(paddr)) by {
                        if self.spec_contains(paddr) {
                            let j = choose|j: int|
                                0 <= j < self.page_record@.len() && self.page_record@[j].0
                                    == paddr;
                            let x = if j < i {
                                j
                            } else {
                                j + 1
                            };
                            assert(pre[x].0 == paddr && pre[i as int].0 == paddr && x != i);
                        }
                    }
                }
                0
            },
            None => {
                proof {
                    assert(false);
                }
                0
            },
        }
    }

    /// The virtual address of the recorded DMA buffer at `paddr`; the
    /// two coincide in this kernel's one-to-one mapping.
    pub fn mmio_phys_to_virt(&self, paddr: usize) -> (r: usize)
        requires
            self.spec_contains(paddr),
        ensures
            r == paddr,
    {
        paddr
    }

    /// Shares a kernel buffer with the device: its address stands for
    /// itself.
    pub fn share(&self, buffer_vaddr: usize) -> (r: usize)
        ensures
            r == buffer_vaddr,
    {
        buffer_vaddr
    }

    /// Ends a sharing; nothing to undo in a one-to-one mapping.
    pub fn unshare(&self, _paddr: usize) {
    }
}

} // verus!
