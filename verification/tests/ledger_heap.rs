//! Tests of the resource ledger, the frame-allocation surface, the
//! shared heap, and the continuation stack.

use domain_core::continuation::{ContinuationFrame, ContinuationStack};
use domain_core::error::AlienError;
use domain_core::heap::SharedHeap;
use domain_core::ledger::{PageSpan, ResourceLedger};
use domain_core::mem::{next_power_of_two, FrameAllocator};
use domain_core::syscall::{DeviceSpaceRecord, DomainSyscall, KernelConstants};

fn constants() -> KernelConstants {
    KernelConstants {
        trampoline: 0xffff_f000,
        kernel_satp: 0x8000_0000,
        trap_from_user: 0x1000,
        trap_to_user: 0x2000,
        kernel_start: 0x8000_0000,
        kernel_end: 0x8800_0000,
    }
}

fn surface() -> DomainSyscall {
    DomainSyscall::new(
        constants(),
        Vec::<DeviceSpaceRecord>::new(),
        FrameAllocator::new(0, 1024),
        Vec::new(),
    )
}

#[test]
fn power_of_two_rounding() {
    assert_eq!(next_power_of_two(0), 1);
    assert_eq!(next_power_of_two(1), 1);
    assert_eq!(next_power_of_two(2), 2);
    assert_eq!(next_power_of_two(3), 4);
    assert_eq!(next_power_of_two(4), 4);
    assert_eq!(next_power_of_two(5), 8);
    assert_eq!(next_power_of_two(1000), 1024);
}

#[test]
fn alloc_records_rounded_spans() {
    let mut sys = surface();
    let start = sys.sys_alloc_pages(7, 3);
    assert_eq!(start, 0);
    assert_eq!(sys.allocator.free_frames, 1024 - 4);
    // Freeing at the recorded start returns exactly the rounded count.
    let freed = sys.sys_free_pages(7, start, 3);
    assert_eq!(freed, 4);
    assert_eq!(sys.allocator.free_frames, 1024);
}

#[test]
fn free_without_matching_allocation_is_noop() {
    let mut sys = surface();
    let start = sys.sys_alloc_pages(7, 2);
    // A free naming a start that was never returned by an allocation
    // changes nothing in the ledger.
    let freed = sys.sys_free_pages(7, start + 999, 2);
    assert_eq!(freed, 0);
    assert!(sys.ledger.contains_domain(7));
    let freed = sys.sys_free_pages(42, start, 2);
    assert_eq!(freed, 0);
    // The original allocation is still recorded and reclaimable.
    let freed = sys.sys_free_pages(7, start, 2);
    assert_eq!(freed, 2);
}

#[test]
fn ledger_tracks_domains_independently() {
    let mut ledger = ResourceLedger::new();
    ledger.record_pages(1, PageSpan { start: 0, count: 2 });
    ledger.record_pages(2, PageSpan { start: 8, count: 4 });
    assert!(ledger.contains_domain(1));
    assert!(ledger.contains_domain(2));
    let gone = ledger.remove_domain(1);
    assert!(gone.is_some());
    assert!(!ledger.contains_domain(1));
    assert!(ledger.contains_domain(2));
}

#[test]
fn shared_heap_allocation_survives_transfers() {
    let mut heap = SharedHeap::new(8);
    let h = heap.alloc_shared(1, vec![1, 2, 3]).unwrap();
    // Ownership transfers atomically at each boundary crossing; the new
    // owner is exactly the domain named in the transfer, and the value
    // survives every hand-off.
    heap.transfer(h, 2).unwrap();
    assert_eq!(heap.owner_of(h), Ok(2));
    heap.transfer(h, 3).unwrap();
    heap.transfer(h, 1).unwrap();
    assert_eq!(heap.owner_of(h), Ok(1));
    assert_eq!(heap.read_value(h).unwrap(), &vec![1, 2, 3]);
}

#[test]
fn shared_heap_reports_exhaustion_as_typed_error() {
    let mut heap = SharedHeap::new(1);
    heap.alloc_shared(1, vec![0]).unwrap();
    let r = heap.alloc_shared(1, vec![0]);
    assert_eq!(r, Err(AlienError::Other));
}

#[test]
fn shared_heap_buffer_allocation_carries_length() {
    let mut heap = SharedHeap::new(4);
    let h = heap.alloc_shared_vec(5, 16, 0xab).unwrap();
    let v = heap.read_value(h).unwrap();
    assert_eq!(v.len(), 16);
    assert!(v.iter().all(|b| *b == 0xab));
}

#[test]
fn dropped_reference_invalidates_handle() {
    let mut heap = SharedHeap::new(4);
    let h = heap.alloc_shared(1, vec![9]).unwrap();
    heap.drop_last_ref(h).unwrap();
    assert_eq!(heap.owner_of(h), Err(AlienError::InvalidArg));
    assert_eq!(heap.transfer(h, 2), Err(AlienError::InvalidArg));
}

#[test]
fn continuation_frame_consumed_by_pop_or_unwind() {
    let mut stack = ContinuationStack::new();
    assert_eq!(stack.depth(), 0);
    stack.register_cont(ContinuationFrame { regs: vec![0; 32], stub: 0x11 });
    stack.register_cont(ContinuationFrame { regs: vec![1; 32], stub: 0x22 });
    assert_eq!(stack.depth(), 2);
    // Normal return pops the inner frame...
    let inner = stack.pop_continuation();
    assert_eq!(inner.stub, 0x22);
    // ...and a crash unwind consumes the outer one; each frame goes to
    // exactly one of the two.
    let outer = stack.unwind();
    assert_eq!(outer.stub, 0x11);
    assert_eq!(stack.depth(), 0);
}
