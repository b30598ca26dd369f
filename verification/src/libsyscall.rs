//! The inward capability surface as a domain sees it.
//!
//! A domain never reaches kernel state directly: it is handed a syscall
//! shim and a task shim at activation, and every function here forwards to
//! one of the two. The shims are passed explicitly rather than held in
//! process-wide singletons, so each call names the service it uses.

use crate::ledger::PageSpan;
use crate::mem::pow2_round;
use crate::syscall::DomainSyscall;
use crate::task::{KernelTask, TaskContext, TaskShim};
use vstd::prelude::*;

verus! {

/// The device classes a domain can ask the kernel to locate.
#[derive(Clone, Copy, Debug, PartialEq, Eq, Structural)]
pub enum DeviceType {
    Block,
    Uart,
    Gpu,
    Input,
    Rtc,
    PLIC,
}

/// The names under which domains are registered for peer lookup.
#[derive(Clone, Copy, Debug, PartialEq, Eq, Structural)]
pub enum DomainIdent {
    Blk,
    ShadowBlk,
    CacheBlk,
    Uart,
    Gpu,
    KeyboardInput,
    MouseInput,
    Rtc,
    Devices,
    Vfs,
    Fs,
    Plic,
    Task,
    SysCall,
}

/// A kernel task as a domain sees it through the task shim.
pub trait KTask {
    /// Marks the task as waiting.
    fn to_wait(&mut self);

    /// Marks the task as runnable again.
    fn to_wakeup(&mut self);

    /// True iff a signal is pending for the task.
    fn have_signal(&self) -> bool;
}

/// The task-side capability set a domain is handed at activation.
pub trait KTaskShim {
    /// The task currently running on this hart.
    fn get_task(&self) -> KernelTask;

    /// Puts a task back into the run queue.
    fn put_task(&mut self, task: KernelTask);

    /// Suspends the current task.
    fn suspend(&mut self);

    /// Translates a task-space address into a kernel-space address.
    fn transfer_ptr_raw(&self, ptr: usize) -> usize;
}

/// The kernel-side capability set a domain is handed at activation.
/// `DomainSyscall` is its one implementation; the contracts live on that
/// type's inherent methods.
pub trait Syscall {
    /// Writes free-form text to the kernel console.
    fn console_write(&mut self, s: &[u8]);

    /// Monotonic milliseconds since boot.
    fn read_timer_ms(&self) -> u64;

    /// Whether the range lies entirely within kernel space.
    fn kernel_space_check(&self, start: usize, size: usize) -> bool;

    /// Test-only hook: the one-shot flag the unwind path lowers.
    fn crash_trick(&self) -> bool;
}

/// The task currently running on this hart.
pub fn current_task(shim: &TaskShim) -> (r: KernelTask)
    ensures
        r == shim.spec_current(),
{
    shim.get_current()
}

/// Puts a task back into the run queue.
pub fn put_task(shim: &mut TaskShim, task: KernelTask)
    ensures
        final(shim).queue@ == old(shim).queue@.push(task),
        final(shim).current == old(shim).current,
        final(shim).va_offset == old(shim).va_offset,
        final(shim).suspend_count == old(shim).suspend_count,
{
    shim.enqueue(task)
}

/// Suspends the current task until it is woken again.
pub fn suspend(shim: &mut TaskShim)
    requires
        old(shim).suspend_count < u64::MAX,
    ensures
        final(shim).suspend_count == old(shim).suspend_count + 1,
        final(shim).queue@ == old(shim).queue@,
        final(shim).current == old(shim).current,
        final(shim).va_offset == old(shim).va_offset,
{
    shim.do_suspend()
}

/// Copies `src` into the task-side buffers `bufs`, clamping each chunk to
/// the space its buffer offers, as the task shim does for scattered pages.
pub fn copy_data_to_task(shim: &TaskShim, src: &Vec<u8>, bufs: &mut Vec<Vec<u8>>)
    ensures
        final(bufs)@.len() == old(bufs)@.len(),
        forall|i: int|
            0 <= i < old(bufs)@.len() ==> (#[trigger] final(bufs)@[i])@.len() == old(
                bufs,
            )@[i]@.len(),
        forall|i: int, j: int|
            0 <= i < old(bufs)@.len() && 0 <= j < old(bufs)@[i]@.len() ==> (#[trigger] final(bufs)@[i]@[j]) == (if crate::task::prefix_len(old(bufs)@, i) + j < src@.len() {
                src@[crate::task::prefix_len(old(bufs)@, i) + j]
            } else {
                old(bufs)@[i]@[j]
            }),
{
    crate::task::scatter_copy(src, bufs)
}

/// Gathers task-side buffers `bufs` into `dst`, reading each byte from
/// the buffer that covers its position, as the task shim does when data
/// crosses from the task to the kernel.
pub fn copy_data_from_task(shim: &TaskShim, bufs: &Vec<Vec<u8>>, dst: &mut Vec<u8>)
    ensures
        final(dst)@.len() == old(dst)@.len(),
        forall|p: int|
            0 <= p < old(dst)@.len() ==> #[trigger] final(dst)@[p] == (if p
                < crate::task::total_len(bufs@) {
                crate::task::byte_at(bufs@, p)
            } else {
                old(dst)@[p]
            }),
{
    crate::task::gather_copy(bufs, dst)
}

/// Translates a task-space address of a mutable value into kernel space.
pub fn transfer_ptr_mut(shim: &TaskShim, ptr: usize) -> (r: usize)
    requires
        ptr + shim.va_offset <= usize::MAX,
    ensures
        r == ptr + shim.va_offset,
{
    shim.translate(ptr)
}

/// Translates a task-space address of a shared value into kernel space.
pub fn transfer_ptr(shim: &TaskShim, ptr: usize) -> (r: usize)
    requires
        ptr + shim.va_offset <= usize::MAX,
    ensures
        r == ptr + shim.va_offset,
{
    shim.translate(ptr)
}

/// Asks the kernel whether `[start, start + size)` lies entirely within
/// kernel space.
pub fn check_kernel_space(sys: &DomainSyscall, start: usize, size: usize) -> (r: bool)
    ensures
        r == crate::syscall::in_kernel_space(sys.constants, start, size),
{
    sys.check_kernel_space(start, size)
}

/// Allocates `n` pages rounded up to a power of two; returns the first
/// frame number of the range.
pub fn alloc_raw_pages(sys: &mut DomainSyscall, domain_id: u64, n: usize) -> (r: usize)
    requires
        old(sys).wf(),
        n <= 0x1000_0000,
        pow2_round(n as nat) <= old(sys).allocator.free_frames,
        old(sys).allocator.next_frame + pow2_round(n as nat) <= usize::MAX,
    ensures
        final(sys).wf(),
        r == old(sys).allocator.next_frame,
        final(sys).ledger.pages_of(domain_id) == old(sys).ledger.pages_of(domain_id).push(
            PageSpan { start: r, count: pow2_round(n as nat) as usize },
        ),
        final(sys).allocator.free_frames == old(sys).allocator.free_frames - pow2_round(n as nat),
{
    sys.sys_alloc_pages(domain_id, n)
}

/// Returns pages previously allocated at frame `p` to the allocator and
/// drops the matching ledger record. Without a matching record the ledger
/// is untouched.
pub fn free_raw_pages(sys: &mut DomainSyscall, domain_id: u64, p: usize, n: usize) -> (freed:
    usize)
    requires
        old(sys).wf(),
        crate::ledger::spans_total(old(sys).ledger.pages_of(domain_id)) + old(
            sys,
        ).allocator.free_frames <= usize::MAX,
    ensures
        final(sys).wf(),
        final(sys).allocator.free_frames == old(sys).allocator.free_frames + freed,
        !old(sys).ledger.spec_contains(domain_id) ==> freed == 0 && final(sys).ledger.entries@
            == old(sys).ledger.entries@,
        old(sys).ledger.spec_contains(domain_id) ==> final(sys).ledger.pages_of(domain_id)
            == crate::ledger::without_start(old(sys).ledger.pages_of(domain_id), p),
{
    sys.sys_free_pages(domain_id, p, n)
}

/// A page allocation as a domain holds it: the first frame and the
/// count, released through the same surface that produced it.
#[derive(Clone, Copy, Debug, PartialEq, Eq, Structural)]
pub struct FrameTracker {
    pub start: usize,
    pub frames: usize,
}

/// Allocates `n` pages rounded up to a power of two and wraps the range
/// in a tracker the domain can carry.
pub fn alloc_pages(sys: &mut DomainSyscall, domain_id: u64, n: usize) -> (r: FrameTracker)
    requires
        old(sys).wf(),
        n <= 0x1000_0000,
        pow2_round(n as nat) <= old(sys).allocator.free_frames,
        old(sys).allocator.next_frame + pow2_round(n as nat) <= usize::MAX,
    ensures
        final(sys).wf(),
        r.start == old(sys).allocator.next_frame,
        r.frames == pow2_round(n as nat),
        final(sys).ledger.pages_of(domain_id) == old(sys).ledger.pages_of(domain_id).push(
            PageSpan { start: r.start, count: r.frames },
        ),
{
    let start = sys.sys_alloc_pages(domain_id, n);
    let frames = crate::mem::next_power_of_two(n);
    FrameTracker { start, frames }
}

/// Dumps a trace for the crashed domain and enters the reclaim-and-unwind
/// path of the capability surface; the returned frame carries the stub
/// the caller resumes at.
pub fn backtrace(
    sys: &mut DomainSyscall,
    domain_id: u64,
    stack: &mut crate::continuation::ContinuationStack,
) -> (frame: crate::continuation::ContinuationFrame)
    requires
        old(sys).wf(),
        old(stack).wf(),
        old(stack).frames@.len() > 0,
        old(sys).ledger.spec_contains(domain_id),
        old(sys).ledger.resources_of(domain_id).syscall_shim is Some,
        old(sys).ledger.resources_of(domain_id).heap_shim is Some,
        old(sys).ledger.resources_of(domain_id).task_shim is Some,
        crate::ledger::spans_total(old(sys).ledger.pages_of(domain_id)) + old(
            sys,
        ).allocator.free_frames <= usize::MAX,
    ensures
        final(sys).wf(),
        final(stack).wf(),
        !final(sys).ledger.spec_contains(domain_id),
        !final(sys).blk_crash,
        frame == old(stack).frames@.last(),
        final(stack).frames@ == old(stack).frames@.drop_last(),
{
    sys.sys_backtrace(domain_id, stack)
}

/// Writes free-form text to the kernel console.
pub fn write_console(sys: &mut DomainSyscall, s: &[u8])
    ensures
        final(sys).console@ == old(sys).console@ + s@,
        final(sys).ledger == old(sys).ledger,
        final(sys).allocator == old(sys).allocator,
        final(sys).blk_crash == old(sys).blk_crash,
        final(sys).registry@ == old(sys).registry@,
        final(sys).constants == old(sys).constants,
        final(sys).timer_ms == old(sys).timer_ms,
        final(sys).dtb@ == old(sys).dtb@,
        final(sys).device_space@ == old(sys).device_space@,
{
    sys.sys_write_console(s)
}

/// Peer lookup of the block-device domain.
pub fn get_blk_domain(sys: &DomainSyscall) -> (r: Option<u64>)
    ensures
        r == crate::syscall::registry_lookup(sys.registry@, DomainIdent::Blk),
{
    sys.sys_get_blk_domain()
}

/// Peer lookup of the shadow block-device domain.
pub fn get_shadow_blk_domain(sys: &DomainSyscall) -> (r: Option<u64>)
    ensures
        r == crate::syscall::registry_lookup(sys.registry@, DomainIdent::ShadowBlk),
{
    sys.sys_get_shadow_blk_domain()
}

/// Peer lookup of the UART domain.
pub fn get_uart_domain(sys: &DomainSyscall) -> (r: Option<u64>)
    ensures
        r == crate::syscall::registry_lookup(sys.registry@, DomainIdent::Uart),
{
    sys.sys_get_uart_domain()
}

/// Peer lookup of the GPU domain.
pub fn get_gpu_domain(sys: &DomainSyscall) -> (r: Option<u64>)
    ensures
        r == crate::syscall::registry_lookup(sys.registry@, DomainIdent::Gpu),
{
    sys.sys_get_gpu_domain()
}

/// Peer lookup of an input domain by kind.
pub fn get_input_domain(sys: &DomainSyscall, ty: DomainIdent) -> (r: Option<u64>)
    ensures
        r == crate::syscall::registry_lookup(sys.registry@, ty),
{
    sys.sys_get_input_domain(ty)
}

/// Peer lookup of the RTC domain.
pub fn get_rtc_domain(sys: &DomainSyscall) -> (r: Option<u64>)
    ensures
        r == crate::syscall::registry_lookup(sys.registry@, DomainIdent::Rtc),
{
    sys.sys_get_rtc_domain()
}

/// Peer lookup of the cache block-device domain.
pub fn get_cache_blk_domain(sys: &DomainSyscall) -> (r: Option<u64>)
    ensures
        r == crate::syscall::registry_lookup(sys.registry@, DomainIdent::CacheBlk),
{
    sys.sys_get_cache_blk_domain()
}

/// Peer lookup of the devices-enumeration domain.
pub fn get_devices_domain(sys: &DomainSyscall) -> (r: Option<u64>)
    ensures
        r == crate::syscall::registry_lookup(sys.registry@, DomainIdent::Devices),
{
    sys.query_domain(DomainIdent::Devices)
}

/// Peer lookup of the VFS domain.
pub fn get_vfs_domain(sys: &DomainSyscall) -> (r: Option<u64>)
    ensures
        r == crate::syscall::registry_lookup(sys.registry@, DomainIdent::Vfs),
{
    sys.query_domain(DomainIdent::Vfs)
}

/// Test-only hook: reads the one-shot flag the unwind path flips.
pub fn blk_crash_trick(sys: &DomainSyscall) -> (r: bool)
    ensures
        r == sys.blk_crash,
{
    sys.blk_crash_trick()
}

/// The platform device-tree blob.
pub fn get_dtb(sys: &DomainSyscall) -> (r: &Vec<u8>)
    ensures
        r@ == sys.dtb@,
{
    sys.sys_get_dtb()
}

/// Address of the user-mode trap trampoline.
pub fn trampoline_addr(sys: &DomainSyscall) -> (r: usize)
    ensures
        r == sys.constants.trampoline,
{
    sys.sys_trampoline_addr()
}

/// The kernel's address-translation root.
pub fn kernel_satp(sys: &DomainSyscall) -> (r: usize)
    ensures
        r == sys.constants.kernel_satp,
{
    sys.sys_kernel_satp()
}

/// Entry address for traps arriving from user mode.
pub fn trap_from_user(sys: &DomainSyscall) -> (r: usize)
    ensures
        r == sys.constants.trap_from_user,
{
    sys.sys_trap_from_user()
}

/// Entry address for returning to user mode.
pub fn trap_to_user(sys: &DomainSyscall) -> (r: usize)
    ensures
        r == sys.constants.trap_to_user,
{
    sys.sys_trap_to_user()
}

/// Thread-context switch primitive: saves the hart's running context into
/// `now` and installs `next`.
pub fn switch_task(cpu: &mut TaskContext, now: &mut TaskContext, next: &TaskContext)
    ensures
        *final(now) == *old(cpu),
        *final(cpu) == *next,
{
    *now = *cpu;
    *cpu = *next;
}

/// Monotonic milliseconds since boot.
pub fn get_time_ms(sys: &DomainSyscall) -> (r: u64)
    ensures
        r == sys.timer_ms,
{
    sys.sys_read_timer()
}

} // verus!
