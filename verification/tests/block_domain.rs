//! Scenario tests for the block-domain family: the healthy path, crash
//! and restart, ledger reclaim, and peer lookup through the cache.

use domain_core::domains::{DeviceInfo, DiskState, BLOCK_SIZE};
use domain_core::error::AlienError;
use domain_core::mem::FrameAllocator;
use domain_core::syscall::{DeviceSpaceRecord, KernelConstants};
use domain_core::system::DomainSystem;

fn constants() -> KernelConstants {
    KernelConstants {
        trampoline: 0xffff_f000,
        kernel_satp: 0x8000_0000,
        trap_from_user: 0x1000,
        trap_to_user: 0x2000,
        kernel_start: 0x8000_0000,
        kernel_end: 0x8800_0000,
    }
}

fn valid_image() -> Vec<u8> {
    // Magic, little-endian entry offset 12, and one padding byte so the
    // entry lies inside the image.
    let mut img = vec![0x7f, 0x64, 0x6f, 0x6d];
    img.extend_from_slice(&[12, 0, 0, 0, 0, 0, 0, 0]);
    img.push(0);
    img
}

fn boot_with_blk(blocks: usize) -> (DomainSystem, u64) {
    let mut sys = DomainSystem::new(
        constants(),
        Vec::<DeviceSpaceRecord>::new(),
        FrameAllocator::new(0x100, 4096),
        Vec::new(),
    );
    let disk = DiskState::new(blocks);
    let info = DeviceInfo { base: 0x1000_1000, size: 0x1000, irq: 1 };
    let id = sys.register_blk_domain(valid_image(), disk, info).unwrap();
    (sys, id)
}

#[test]
fn healthy_path_write_then_read() {
    let (mut sys, _id) = boot_with_blk(1024);
    assert!(sys.blk_is_active());
    let buf = vec![9u8; BLOCK_SIZE];
    assert_eq!(sys.blk_write(0, &buf), Ok(BLOCK_SIZE));
    let got = sys.blk_read(0, vec![0u8; BLOCK_SIZE]).unwrap();
    assert_eq!(got, vec![9u8; BLOCK_SIZE]);
}

#[test]
fn read_out_of_range_is_invalid_argument() {
    let (mut sys, _id) = boot_with_blk(4);
    let r = sys.blk_read(4, vec![0u8; BLOCK_SIZE]);
    assert_eq!(r, Err(AlienError::InvalidArg));
    let r = sys.blk_write(4, &vec![0u8; BLOCK_SIZE]);
    assert_eq!(r, Err(AlienError::InvalidArg));
}

#[test]
fn crash_and_restart_replays_init() {
    let (mut sys, id) = boot_with_blk(1024);
    let buf = vec![9u8; BLOCK_SIZE];
    assert_eq!(sys.blk_write(0, &buf), Ok(BLOCK_SIZE));
    // Arm the test hook so the next read panics inside the domain.
    sys.arm_blk_crash();
    assert!(sys.blk_crash_trick());
    let r = sys.blk_read(0, vec![0u8; BLOCK_SIZE]);
    assert_eq!(r, Err(AlienError::DomainCrash));
    assert!(!sys.blk_is_active());
    // The unwind path lowered the one-shot flag exactly once.
    assert!(!sys.blk_crash_trick());
    // The ledger entry of the crashed domain is gone.
    assert!(!sys.sys.ledger.contains_domain(id));
    // Hot-swap a fresh instance; the init argument replays and the
    // device state survived.
    assert!(sys.restart_blk());
    assert!(sys.blk_is_active());
    let got = sys.blk_read(0, vec![0u8; BLOCK_SIZE]).unwrap();
    assert_eq!(got, vec![9u8; BLOCK_SIZE]);
}

#[test]
fn inactive_proxy_returns_crash_without_touching_state() {
    let (mut sys, id) = boot_with_blk(8);
    sys.arm_blk_crash();
    let _ = sys.blk_read(0, vec![0u8; BLOCK_SIZE]);
    assert!(!sys.blk_is_active());
    let ledger_len = sys.sys.ledger.entries.len();
    let free = sys.sys.allocator.free_frames;
    // A call entering the proxy of an inactive domain returns the typed
    // crash error without allocating anything.
    let r = sys.blk_read(0, vec![0u8; BLOCK_SIZE]);
    assert_eq!(r, Err(AlienError::DomainCrash));
    assert_eq!(sys.sys.ledger.entries.len(), ledger_len);
    assert_eq!(sys.sys.allocator.free_frames, free);
    assert!(!sys.sys.ledger.contains_domain(id));
}

#[test]
fn ledger_reclaim_on_crash() {
    let (mut sys, id) = boot_with_blk(8);
    let free_at_start = sys.sys.allocator.free_frames;
    // Allocate 2, then 4, then 1 pages through the syscall surface; each
    // is rounded to a power of two and recorded separately.
    sys.alloc_pages(id, 2);
    sys.alloc_pages(id, 4);
    sys.alloc_pages(id, 1);
    assert_eq!(sys.sys.allocator.free_frames, free_at_start - 7);
    // Crash the domain: the ledger holds no entries for it afterwards
    // and the allocator's free count recovered all seven frames.
    sys.arm_blk_crash();
    let r = sys.blk_read(0, vec![0u8; BLOCK_SIZE]);
    assert_eq!(r, Err(AlienError::DomainCrash));
    assert!(!sys.sys.ledger.contains_domain(id));
    assert_eq!(sys.sys.allocator.free_frames, free_at_start);
}

#[test]
fn restart_twice_equals_restart_once() {
    let (mut sys, _id) = boot_with_blk(16);
    let buf = vec![7u8; BLOCK_SIZE];
    assert_eq!(sys.blk_write(3, &buf), Ok(BLOCK_SIZE));
    assert!(sys.restart_blk());
    let active_once = sys.blk_is_active();
    let read_once = sys.blk_read(3, vec![0u8; BLOCK_SIZE]).unwrap();
    assert!(sys.restart_blk());
    let active_twice = sys.blk_is_active();
    let read_twice = sys.blk_read(3, vec![0u8; BLOCK_SIZE]).unwrap();
    assert_eq!(active_once, active_twice);
    assert_eq!(read_once, read_twice);
}

#[test]
fn reads_complete_before_restart_swaps() {
    // Two readers issue their reads; the restart runs only after both
    // completed (the exclusive borrow is the writer side of the slot's
    // lock), and never interleaves capability values mid-read.
    let (mut sys, _id) = boot_with_blk(16);
    let buf = vec![5u8; BLOCK_SIZE];
    assert_eq!(sys.blk_write(1, &buf), Ok(BLOCK_SIZE));
    let first = sys.blk_read(1, vec![0u8; BLOCK_SIZE]).unwrap();
    let second = sys.blk_read(1, vec![0u8; BLOCK_SIZE]).unwrap();
    assert_eq!(first, second);
    assert!(sys.restart_blk());
    assert!(sys.blk_is_active());
    let third = sys.blk_read(1, vec![0u8; BLOCK_SIZE]).unwrap();
    assert_eq!(third, first);
}

#[test]
fn malformed_image_is_rejected() {
    let mut sys = DomainSystem::new(
        constants(),
        Vec::new(),
        FrameAllocator::new(0, 64),
        Vec::new(),
    );
    let disk = DiskState::new(4);
    let info = DeviceInfo { base: 0, size: 0, irq: 0 };
    let bad = vec![1u8, 2, 3];
    let r = sys.register_blk_domain(bad, disk, info);
    assert_eq!(r, Err(AlienError::InvalidArg));
}

#[test]
fn cache_read_delegates_through_block_proxy() {
    let (mut sys, _id) = boot_with_blk(64);
    sys.register_cache_domain().unwrap();
    let mut buf = vec![0u8; BLOCK_SIZE];
    for (i, b) in buf.iter_mut().enumerate() {
        *b = (i % 251) as u8;
    }
    assert_eq!(sys.blk_write(0, &buf), Ok(BLOCK_SIZE));
    // The cache resolves its backing by peer lookup and delegates.
    let got = sys.cache_read(8, 16).unwrap();
    assert_eq!(got, buf[8..24].to_vec());
    // Crashing the block domain surfaces through cache reads.
    sys.arm_blk_crash();
    let r = sys.cache_read(8, 16);
    assert_eq!(r, Err(AlienError::DomainCrash));
    let r = sys.cache_read(8, 16);
    assert_eq!(r, Err(AlienError::DomainCrash));
}

#[test]
fn shadow_registration_names_block_backing() {
    let (mut sys, blk_id) = boot_with_blk(8);
    let shadow_id = sys.register_shadow_domain().unwrap();
    assert_ne!(blk_id, shadow_id);
    assert!(sys.sys.ledger.contains_domain(shadow_id));
}

#[test]
fn shadow_round_trip_and_crash_surface() {
    let (mut sys, _id) = boot_with_blk(16);
    sys.register_shadow_domain().unwrap();
    let buf = vec![3u8; BLOCK_SIZE];
    assert_eq!(sys.shadow_write(2, &buf), Ok(BLOCK_SIZE));
    let got = sys.shadow_read(2, vec![0u8; BLOCK_SIZE]).unwrap();
    assert_eq!(got, buf);
    // A crash of the backing block domain surfaces through the shadow.
    sys.arm_blk_crash();
    assert_eq!(
        sys.shadow_read(2, vec![0u8; BLOCK_SIZE]),
        Err(AlienError::DomainCrash)
    );
    assert_eq!(
        sys.shadow_read(2, vec![0u8; BLOCK_SIZE]),
        Err(AlienError::DomainCrash)
    );
}
