//! Tests of the kernel-side services: signals, polling, interrupt
//! accounting, tasks, the sleep lock, trap dispatch, the filesystem
//! tree, and the socket stub.

use domain_core::device::{BoardInfo, DeviceManager, ProbedDevice};
use domain_core::error::AlienError;
use domain_core::poll::{ppoll_decide, ppoll_scan, PollFd, PpollDecision, POLLIN, POLLNVAL};
use domain_core::record::{interrupts_info, write_interrupt_record, InterruptRecord};
use domain_core::signal::{
    global_logoff_signals, global_register_signals, get_signals_from_tid, send_signal,
    signal_handler, sys_sigprocmask, SigAction, SignalDisposition, SignalHandlers,
    SignalReceivers, SignalTable, EINVAL_RET, SA_SIGINFO, SIGSEGV, SIG_BLOCK, SIG_SETMASK,
    SIG_UNBLOCK,
};
use domain_core::sleeplock::{LockAttempt, SleepLock};
use domain_core::task::{
    gather_copy, init_process, ktread_create, scatter_copy, KernelTask, Task, TaskContext,
    TaskManager, TaskShim, TidAllocator, FdManager, KStack, TaskStatus,
};
use domain_core::trap::{
    illegal_instruction_exception_handler, page_exception_handler, syscall_exception_handler,
    FaultResolution, TrapCause, TrapFrame,
};
use domain_core::unix::UnixSocket;
use domain_core::vfs_tree::{
    init_filesystem, register_all_fs, system_root_fs, system_support_fs, FsKind, FsRegistry,
    MountPoint, MountSource, VFS_STDIN_ID, VFS_STDOUT_ID,
};

#[test]
fn sigprocmask_requests() {
    let mut r = SignalReceivers::new();
    let (ret, old) = sys_sigprocmask(&mut r, SIG_BLOCK, Some(0b1010));
    assert_eq!((ret, old), (0, 0));
    assert_eq!(r.mask, 0b1010);
    let (ret, old) = sys_sigprocmask(&mut r, SIG_UNBLOCK, Some(0b0010));
    assert_eq!((ret, old), (0, 0b1010));
    assert_eq!(r.mask, 0b1000);
    let (ret, _) = sys_sigprocmask(&mut r, SIG_SETMASK, Some(0b0110));
    assert_eq!(ret, 0);
    assert_eq!(r.mask, 0b0110);
    let (ret, _) = sys_sigprocmask(&mut r, 9, Some(1));
    assert_eq!(ret, EINVAL_RET);
    assert_eq!(r.mask, 0b0110);
}

#[test]
fn lowest_unmasked_signal_is_delivered_first() {
    let mut r = SignalReceivers::new();
    r.try_add_bit(5);
    r.try_add_bit(3);
    r.mask = 1 << 3;
    let mut handlers = SignalHandlers::new();
    handlers.set_action(5, SigAction { handler: 0x5000, flags: 0, restorer: 0x6000 });
    let mut tf = TrapFrame::new();
    tf.regs[2] = 0x10000;
    let mut saved = None;
    let d = signal_handler(&mut r, &handlers, &mut tf, &mut saved, 128, 176);
    match d {
        SignalDisposition::Handled { siginfo_addr, ucontext_addr } => {
            assert_eq!(siginfo_addr, None);
            assert_eq!(ucontext_addr, None);
        },
        other => panic!("unexpected disposition {:?}", other),
    }
    assert_eq!(tf.sepc, 0x5000);
    assert_eq!(tf.regs[1], 0x6000);
    assert_eq!(tf.regs[10], 5);
    assert_eq!(tf.regs[2], 0x10000 - 0x100);
    assert!(saved.is_some());
}

#[test]
fn siginfo_records_are_aligned_on_the_user_stack() {
    let mut r = SignalReceivers::new();
    r.try_add_bit(10);
    let mut handlers = SignalHandlers::new();
    handlers.set_action(
        10,
        SigAction { handler: 0x7000, flags: SA_SIGINFO, restorer: 0x7100 },
    );
    let mut tf = TrapFrame::new();
    tf.regs[2] = 0x20000;
    let mut saved = None;
    let d = signal_handler(&mut r, &handlers, &mut tf, &mut saved, 128, 176);
    match d {
        SignalDisposition::Handled { siginfo_addr, ucontext_addr } => {
            let si = siginfo_addr.unwrap();
            let uc = ucontext_addr.unwrap();
            assert_eq!(si % 16, 0);
            assert_eq!(uc % 16, 0);
            assert_eq!(tf.regs[11], si);
            assert_eq!(tf.regs[12], uc);
            assert_eq!(tf.regs[2], uc);
        },
        other => panic!("unexpected disposition {:?}", other),
    }
}

#[test]
fn fatal_signal_exits_the_task() {
    let mut r = SignalReceivers::new();
    r.try_add_bit(SIGSEGV);
    let handlers = SignalHandlers::new();
    let mut tf = TrapFrame::new();
    tf.regs[2] = 0x10000;
    let mut saved = None;
    let d = signal_handler(&mut r, &handlers, &mut tf, &mut saved, 128, 176);
    assert_eq!(d, SignalDisposition::FatalExit);
}

#[test]
fn signal_table_round_trip() {
    let mut table = SignalTable::new();
    global_register_signals(&mut table, 12, SignalReceivers::new());
    send_signal(&mut table, 12, 4);
    let r = get_signals_from_tid(&table, 12).unwrap();
    assert_eq!(r.pending, 1 << 4);
    assert!(get_signals_from_tid(&table, 99).is_none());
    global_logoff_signals(&mut table, 12);
    assert!(get_signals_from_tid(&table, 12).is_none());
}

#[test]
fn poll_scan_and_decisions() {
    let files: Vec<Option<u16>> = vec![Some(POLLIN), Some(0), None];
    let mut fds = vec![
        PollFd { fd: 0, events: POLLIN, revents: 0 },
        PollFd { fd: 1, events: POLLIN, revents: 0 },
        PollFd { fd: 2, events: POLLIN, revents: 0 },
        PollFd { fd: 9, events: POLLIN, revents: 0 },
    ];
    let count = ppoll_scan(&mut fds, &files);
    assert_eq!(count, 1);
    assert_eq!(fds[0].revents, POLLIN);
    assert_eq!(fds[1].revents, 0);
    assert_eq!(fds[2].events, POLLNVAL);
    assert_eq!(fds[3].events, POLLNVAL);
    assert_eq!(ppoll_decide(1, None, 5, false), PpollDecision::Ready(1));
    assert_eq!(ppoll_decide(0, Some(5), 5, false), PpollDecision::TimedOut);
    assert_eq!(ppoll_decide(0, Some(9), 5, true), PpollDecision::Interrupted);
    assert_eq!(ppoll_decide(0, None, 5, false), PpollDecision::Suspend);
}

#[test]
fn interrupt_report_renders_counts() {
    let mut rec = InterruptRecord::new();
    write_interrupt_record(&mut rec, 5);
    write_interrupt_record(&mut rec, 5);
    write_interrupt_record(&mut rec, 10);
    let report = interrupts_info(&rec);
    assert_eq!(report, b"5: 2\n10: 1\n".to_vec());
}

#[test]
fn scatter_and_gather_copies() {
    let src = vec![1u8, 2, 3, 4, 5];
    let mut bufs = vec![vec![0u8; 2], vec![0u8; 2], vec![9u8; 3]];
    scatter_copy(&src, &mut bufs);
    assert_eq!(bufs[0], vec![1, 2]);
    assert_eq!(bufs[1], vec![3, 4]);
    assert_eq!(bufs[2], vec![5, 9, 9]);
    let mut dst = vec![0u8; 4];
    gather_copy(&bufs, &mut dst);
    assert_eq!(dst, vec![1, 2, 3, 4]);
}

#[test]
fn kernel_thread_creation_opens_standard_streams() {
    let mut mgr = TaskManager::new();
    let mut tids = TidAllocator::new();
    ktread_create(&mut mgr, &mut tids, 0x9000_0000, 0x8020_0000, "kworker").unwrap();
    assert_eq!(mgr.queue.len(), 1);
    let t = &mgr.queue[0];
    assert_eq!(t.tid, 0);
    assert_eq!(t.pid, 0);
    assert_eq!(t.status, TaskStatus::Ready);
    assert_eq!(t.context.ra, 0x8020_0000);
    assert_eq!(t.fd_table.table, vec![VFS_STDIN_ID, VFS_STDOUT_ID, VFS_STDOUT_ID]);
    // A second thread gets the next id; ids are never reused.
    ktread_create(&mut mgr, &mut tids, 0x9001_0000, 0x8020_0000, "kworker2").unwrap();
    assert_eq!(mgr.queue[1].tid, 1);
}

#[test]
fn init_process_joins_the_pool() {
    let mut mgr = TaskManager::new();
    let mut tids = TidAllocator::new();
    ktread_create(&mut mgr, &mut tids, 0x9000_0000, 0x8000_1000, "init-stage").unwrap();
    let before = mgr.queue.len();
    let mut fd_table = FdManager::new();
    fd_table.insert(VFS_STDIN_ID);
    let init = Task {
        tid: 7,
        pid: 7,
        kernel_stack: KStack::new(4, 0x9100_0000),
        fd_table,
        thread_number: 0,
        status: TaskStatus::Ready,
        context: TaskContext::new(0x8000_2000, 0x9100_4000),
        exit_code: 0,
    };
    init_process(&mut mgr, init);
    assert_eq!(mgr.queue.len(), before + 1);
    assert_eq!(mgr.queue[before].tid, 7);
}

#[test]
fn task_shim_translation_and_queue() {
    let current = KernelTask { tid: 1, waiting: false, pending_signal: false };
    let mut shim = TaskShim::new(current, 0x4000);
    assert_eq!(shim.get_current().tid, 1);
    assert_eq!(shim.translate(0x100), 0x4100);
    shim.enqueue(KernelTask { tid: 2, waiting: false, pending_signal: false });
    assert_eq!(shim.queue.len(), 1);
    shim.do_suspend();
    assert_eq!(shim.suspend_count, 1);
}

#[test]
fn sleep_lock_wakes_waiters_in_order() {
    let mut lock = SleepLock::new(41u32);
    assert_eq!(lock.lock(1), LockAttempt::Acquired);
    assert_eq!(lock.lock(2), LockAttempt::Queued);
    assert_eq!(lock.lock(3), LockAttempt::Queued);
    lock.data = 42;
    assert_eq!(lock.release(), Some(2));
    assert_eq!(lock.lock(2), LockAttempt::Acquired);
    assert_eq!(lock.release(), Some(3));
    assert_eq!(lock.lock(3), LockAttempt::Acquired);
    assert_eq!(lock.release(), None);
    assert_eq!(lock.data, 42);
}

#[test]
fn trap_dispatch() {
    let mut tf = TrapFrame::new();
    tf.sepc = 0x100;
    syscall_exception_handler(&mut tf, -5);
    assert_eq!(tf.sepc, 0x104);
    assert_eq!(tf.regs[10], (-5isize) as usize);
    let f = FaultResolution { file: 3, offset: 4096, len: 4096 };
    assert_eq!(
        page_exception_handler(TrapCause::LoadPageFault, Some(f), None),
        Ok(Some(f))
    );
    assert_eq!(
        page_exception_handler(TrapCause::LoadPageFault, None, None),
        Err(AlienError::Other)
    );
    assert_eq!(
        page_exception_handler(TrapCause::StorePageFault, None, Some(None)),
        Ok(None)
    );
    assert_eq!(
        page_exception_handler(TrapCause::UserSyscall, None, None),
        Err(AlienError::Other)
    );
    assert_eq!(illegal_instruction_exception_handler(), Err(AlienError::Other));
}

#[test]
fn filesystem_tree_assembly() {
    let mut reg = FsRegistry::new();
    let tree = init_filesystem(&mut reg, Some(1), Some(2), Some(3)).unwrap();
    assert_eq!(reg.fs.len(), 5);
    assert_eq!(tree.mounts.len(), 7);
    assert_eq!(tree.mounts[0], (MountPoint::Root, MountSource::RamFsDomain));
    assert_eq!(tree.mounts[3], (MountPoint::Dev, MountSource::DevFsDomain));
    assert_eq!(tree.mounts[6], (MountPoint::Tests, MountSource::FatFsDomain));
    assert_eq!(tree.vfs_map.len(), 4);
    assert_eq!(system_root_fs(&tree), MountSource::RamFsDomain);
    assert_eq!(system_support_fs(&reg, FsKind::TmpFs), Some(FsKind::TmpFs));
    let mut empty = FsRegistry::new();
    register_all_fs(&mut empty);
    assert_eq!(system_support_fs(&FsRegistry::new(), FsKind::TmpFs), None);
}

#[test]
fn device_probe_respects_the_board() {
    let board = BoardInfo {
        uart: Some((0x1000_0000, 10)),
        gpu: Some((0x1000_7000, 0)),
        keyboard: None,
        mouse: None,
        rtc: Some((0x10_1000, 11)),
        block: Some((0x1000_8000, 0)),
    };
    let mut mgr = DeviceManager::new();
    domain_core::device::init_device(&mut mgr, &board);
    assert_eq!(
        mgr.initialized,
        vec![ProbedDevice::Uart, ProbedDevice::Gpu, ProbedDevice::Rtc, ProbedDevice::Block]
    );
    // Only the UART and RTC register interrupt lines on this board; the
    // GPU and block device are polled.
    assert_eq!(
        mgr.plic,
        vec![(10, ProbedDevice::Uart), (11, ProbedDevice::Rtc)]
    );
    assert!(mgr.uart_flag);
}

#[test]
fn unix_socket_connect_is_not_supported() {
    let s = UnixSocket::new();
    assert_eq!(s.connect(&b"/tmp/sock".to_vec()), Err(AlienError::NotFound));
}
