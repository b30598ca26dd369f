//! Tests of the device- and task-side proxies: every cross-boundary
//! call consults the activation flag first, and forwards unchanged when
//! the domain is up.

use domain_core::domains::{
    DeviceInfo, DevicesDomain, GPUDomain, HalImpl, PlicDomain, RtcDomain, RtcTime,
    SysCallDomain, TaskDomain, UartDomain,
};
use domain_core::error::AlienError;
use domain_core::libsyscall::DomainIdent;
use domain_core::mem::FrameAllocator;
use domain_core::proxy_dev::{
    DevicesDomainProxy, EIntrDomainProxy, GpuDomainProxy, RtcDomainProxy, UartDomainProxy,
};
use domain_core::proxy_task::{FsDomainProxy, SysCallDomainProxy, TaskDomainProxy, VfsDomainProxy};

fn info(irq: usize) -> DeviceInfo {
    DeviceInfo { base: 0x1000_0000, size: 0x100, irq }
}

#[test]
fn rtc_proxy_guards_reads() {
    let now = RtcTime { year: 2024, month: 5, day: 1, hour: 3, minute: 4, second: 5 };
    let mut p = RtcDomainProxy::new(1, RtcDomain::fresh(now));
    assert!(p.is_active());
    assert_eq!(p.read_time(), Ok(now));
    assert_eq!(p.handle_irq(), Ok(()));
    p.domain.active = false;
    assert_eq!(p.read_time(), Err(AlienError::DomainCrash));
    assert_eq!(p.handle_irq(), Err(AlienError::DomainCrash));
}

#[test]
fn uart_proxy_round_trips_bytes() {
    let mut p = UartDomainProxy::new(2, UartDomain::fresh());
    p.init(info(10)).unwrap();
    assert_eq!(p.putc(b'h'), Ok(()));
    assert_eq!(p.putc(b'i'), Ok(()));
    assert_eq!(p.domain.tx, b"hi".to_vec());
    assert_eq!(p.getc(), Ok(None));
    p.domain.rx = vec![b'a', b'b'];
    assert_eq!(p.have_data_to_get(), Ok(true));
    assert_eq!(p.getc(), Ok(Some(b'a')));
    assert_eq!(p.getc(), Ok(Some(b'b')));
    assert_eq!(p.have_data_to_get(), Ok(false));
    p.enable_receive_interrupt().unwrap();
    assert!(p.domain.rx_irq_enabled);
    p.disable_receive_interrupt().unwrap();
    assert!(!p.domain.rx_irq_enabled);
    p.domain.active = false;
    assert_eq!(p.putc(b'x'), Err(AlienError::DomainCrash));
    assert_eq!(p.getc(), Err(AlienError::DomainCrash));
}

#[test]
fn gpu_proxy_fills_the_framebuffer() {
    let mut p = GpuDomainProxy::new(3, GPUDomain::fresh(32));
    p.init(info(0)).unwrap();
    assert_eq!(p.fill(4, &vec![1, 2, 3]), Ok(3));
    assert_eq!(p.domain.fb[4..7], [1, 2, 3]);
    assert_eq!(p.domain.fb[0], 0);
    assert_eq!(p.fill(30, &vec![1, 2, 3]), Err(AlienError::InvalidArg));
    assert_eq!(p.flush(), Ok(()));
    assert_eq!(p.domain.flush_count, 1);
    p.domain.active = false;
    assert_eq!(p.flush(), Err(AlienError::DomainCrash));
    assert_eq!(p.fill(0, &vec![1]), Err(AlienError::DomainCrash));
}

#[test]
fn plic_proxy_registers_interrupt_lines() {
    let mut p = EIntrDomainProxy::new(4, PlicDomain::fresh());
    p.init(info(0)).unwrap();
    p.register_irq(10, DomainIdent::Uart).unwrap();
    p.register_irq(11, DomainIdent::Rtc).unwrap();
    let table = p.irq_info().unwrap();
    assert_eq!(table, vec![(10, DomainIdent::Uart), (11, DomainIdent::Rtc)]);
    assert_eq!(p.handle_irq(), Ok(()));
    p.domain.active = false;
    assert_eq!(p.register_irq(12, DomainIdent::Gpu), Err(AlienError::DomainCrash));
    assert_eq!(p.irq_info(), Err(AlienError::DomainCrash));
}

#[test]
fn devices_proxy_indexes_the_probed_table() {
    let devices = vec![info(1), info(2)];
    let p = DevicesDomainProxy::new(5, DevicesDomain::fresh(devices));
    assert_eq!(p.index_device(0), Ok(info(1)));
    assert_eq!(p.index_device(1), Ok(info(2)));
    assert_eq!(p.index_device(2), Err(AlienError::InvalidArg));
}

#[test]
fn task_proxy_reports_and_mutates_task_state() {
    let mut d = TaskDomain::fresh();
    d.current_tid = 3;
    d.current_pid = 3;
    d.current_ppid = 1;
    d.satp = 0x8000_1000;
    d.brk = 0x4000;
    d.fds = vec![10, 20];
    let mut p = TaskDomainProxy::new(6, d);
    assert_eq!(p.current_tid(), Ok(3));
    assert_eq!(p.current_pid(), Ok(3));
    assert_eq!(p.current_ppid(), Ok(1));
    assert_eq!(p.current_task_satp(), Ok(0x8000_1000));
    assert_eq!(p.get_fd(1), Ok(20));
    assert_eq!(p.get_fd(2), Err(AlienError::InvalidArg));
    assert_eq!(p.do_brk(0), Ok(0x4000));
    assert_eq!(p.do_brk(0x5000), Ok(0x5000));
    assert_eq!(p.domain.brk, 0x5000);
    p.current_to_wait().unwrap();
    assert_eq!(p.domain.waiting, vec![3]);
    p.wake_up_wait_task(3).unwrap();
    assert!(p.domain.waiting.is_empty());
    assert_eq!(p.do_clone(0, 0, 0, 0, 0), Ok(4));
    assert_eq!(p.do_yield(), Ok(0));
    let mut dst = vec![0u8; 4];
    p.copy_to_user(&vec![1, 2, 3, 4], &mut dst, 4).unwrap();
    assert_eq!(dst, vec![1, 2, 3, 4]);
    p.domain.active = false;
    assert_eq!(p.current_tid(), Err(AlienError::DomainCrash));
    assert_eq!(p.do_yield(), Err(AlienError::DomainCrash));
}

#[test]
fn syscall_proxy_records_served_calls() {
    let mut p = SysCallDomainProxy::new(7, SysCallDomain::fresh());
    assert_eq!(p.call(64, [0; 6]), Ok(0));
    assert_eq!(p.call(93, [1, 2, 3, 4, 5, 6]), Ok(0));
    assert_eq!(p.domain.served, vec![64, 93]);
    p.domain.active = false;
    assert_eq!(p.call(64, [0; 6]), Err(AlienError::DomainCrash));
}

#[test]
fn filesystem_proxies_report_liveness() {
    let fs = FsDomainProxy::new(8, domain_core::domains::FsDomain::fresh());
    assert!(fs.is_active());
    let vfs = VfsDomainProxy::new(9, domain_core::domains::VfsDomain::fresh());
    assert!(vfs.is_active());
}

#[test]
fn hal_tracks_dma_allocations() {
    let mut hal = HalImpl::new(FrameAllocator::new(0x200, 64));
    let (paddr, vaddr) = hal.dma_alloc(4);
    assert_eq!(paddr, 0x200);
    assert_eq!(paddr, vaddr);
    assert_eq!(hal.mmio_phys_to_virt(paddr), paddr);
    assert_eq!(hal.share(0x9000), 0x9000);
    hal.unshare(paddr);
    assert_eq!(hal.allocator.free_frames, 60);
    assert_eq!(hal.dma_dealloc(paddr), 0);
    assert_eq!(hal.allocator.free_frames, 64);
    assert!(hal.page_record.is_empty());
}
