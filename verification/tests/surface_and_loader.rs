//! Tests of the domain loader and the capability surface: image
//! parsing, device-space lookup, peer lookup, kernel-space checks, the
//! console and the timer.

use domain_core::error::AlienError;
use domain_core::libsyscall::{self, DeviceType, DomainIdent};
use domain_core::loader::DomainLoader;
use domain_core::mem::FrameAllocator;
use domain_core::syscall::{DeviceSpaceRecord, DomainSyscall, KernelConstants};

fn constants() -> KernelConstants {
    KernelConstants {
        trampoline: 0xffff_f000,
        kernel_satp: 0x8000_0000,
        trap_from_user: 0x1000,
        trap_to_user: 0x2000,
        kernel_start: 0x8000_0000,
        kernel_end: 0x8800_0000,
    }
}

fn device_table() -> Vec<DeviceSpaceRecord> {
    vec![
        DeviceSpaceRecord { kind: DeviceType::Uart, base: 0x1000_0000, size: 0x100 },
        DeviceSpaceRecord { kind: DeviceType::Block, base: 0x1000_8000, size: 0x1000 },
        DeviceSpaceRecord { kind: DeviceType::Rtc, base: 0x10_1000, size: 0x100 },
    ]
}

fn surface() -> DomainSyscall {
    DomainSyscall::new(constants(), device_table(), FrameAllocator::new(0, 64), vec![0xd7, 0xb0])
}

#[test]
fn loader_parses_valid_image() {
    let mut img = vec![0x7f, 0x64, 0x6f, 0x6d];
    img.extend_from_slice(&[13, 0, 0, 0, 0, 0, 0, 0]);
    img.extend_from_slice(&[0, 0]);
    let mut loader = DomainLoader::new(img);
    assert!(loader.load().is_ok());
    assert_eq!(loader.entry_addr(), Ok(13));
    // Reload is idempotent without an intervening call.
    assert!(loader.reload().is_ok());
    assert!(loader.reload().is_ok());
    assert_eq!(loader.entry_addr(), Ok(13));
}

#[test]
fn loader_rejects_malformed_images() {
    // Too short for the header.
    let mut l = DomainLoader::new(vec![0x7f, 0x64]);
    assert_eq!(l.load(), Err(AlienError::InvalidArg));
    assert_eq!(l.entry_addr(), Err(AlienError::InvalidArg));
    // Wrong magic.
    let mut img = vec![0u8; 16];
    let mut l = DomainLoader::new(img.clone());
    assert_eq!(l.load(), Err(AlienError::InvalidArg));
    // Entry offset outside the image.
    img[0] = 0x7f;
    img[1] = 0x64;
    img[2] = 0x6f;
    img[3] = 0x6d;
    img[4] = 200;
    let mut l = DomainLoader::new(img);
    assert_eq!(l.load(), Err(AlienError::InvalidArg));
}

#[test]
fn device_space_finds_first_matching_record() {
    let sys = surface();
    assert_eq!(sys.sys_device_space(DeviceType::Uart), Some((0x1000_0000, 0x100)));
    assert_eq!(sys.sys_device_space(DeviceType::Block), Some((0x1000_8000, 0x1000)));
    assert_eq!(sys.sys_device_space(DeviceType::Gpu), None);
}

#[test]
fn kernel_space_check_is_exact() {
    let sys = surface();
    assert!(sys.check_kernel_space(0x8000_0000, 0x100));
    assert!(sys.check_kernel_space(0x87ff_ff00, 0x100));
    assert!(!sys.check_kernel_space(0x87ff_ff01, 0x100));
    assert!(!sys.check_kernel_space(0x7fff_ffff, 4));
    assert!(libsyscall::check_kernel_space(&sys, 0x8000_0000, 0));
}

#[test]
fn peer_lookup_finds_registered_domains() {
    let mut sys = surface();
    assert_eq!(sys.sys_get_blk_domain(), None);
    sys.register_domain(DomainIdent::Blk, 3);
    sys.register_domain(DomainIdent::Rtc, 4);
    assert_eq!(sys.sys_get_blk_domain(), Some(3));
    assert_eq!(sys.sys_get_rtc_domain(), Some(4));
    assert_eq!(sys.sys_get_gpu_domain(), None);
    assert_eq!(libsyscall::get_blk_domain(&sys), Some(3));
    assert_eq!(libsyscall::get_input_domain(&sys, DomainIdent::KeyboardInput), None);
}

#[test]
fn console_appends_in_order() {
    let mut sys = surface();
    libsyscall::write_console(&mut sys, b"boot");
    libsyscall::write_console(&mut sys, b" ok");
    assert_eq!(sys.console, b"boot ok".to_vec());
}

#[test]
fn timer_reads_follow_ticks() {
    let mut sys = surface();
    assert_eq!(sys.sys_read_timer(), 0);
    sys.tick(25);
    sys.tick(5);
    assert_eq!(libsyscall::get_time_ms(&sys), 30);
}

#[test]
fn fixed_kernel_constants_are_reported() {
    let sys = surface();
    assert_eq!(libsyscall::trampoline_addr(&sys), 0xffff_f000);
    assert_eq!(libsyscall::kernel_satp(&sys), 0x8000_0000);
    assert_eq!(libsyscall::trap_from_user(&sys), 0x1000);
    assert_eq!(libsyscall::trap_to_user(&sys), 0x2000);
    assert_eq!(libsyscall::get_dtb(&sys), &vec![0xd7, 0xb0]);
}

#[test]
fn crash_flag_starts_raised() {
    let sys = surface();
    assert!(libsyscall::blk_crash_trick(&sys));
}
