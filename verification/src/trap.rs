//! Trap-frame model and exception dispatch.
//!
//! The trap vector and the page-table walk belong to collaborators; what
//! is verified here is what the handlers decide: how a syscall return
//! rewrites the trap frame, which exception classes are served, and what
//! a page fault asks the filesystem to read.

use crate::error::{AlienError, AlienResult};
use vstd::prelude::*;

verus! {

/// Number of integer registers in a trap frame.
pub const TRAP_REGS: usize = 32;

/// A saved user context: the integer registers and the faulting pc.
pub struct TrapFrame {
    pub regs: Vec<usize>,
    pub sepc: usize,
}

impl TrapFrame {
    pub open spec fn wf(self) -> bool {
        self.regs@.len() == TRAP_REGS
    }

    /// A zeroed frame.
    pub fn new() -> (r: TrapFrame)
        ensures
            r.wf(),
            r.sepc == 0,
            forall|i: int| 0 <= i < TRAP_REGS ==> #[trigger] r.regs@[i] == 0,
    {
        let mut regs: Vec<usize> = Vec::new();
        let mut i: usize = 0;
        while i < TRAP_REGS
            invariant
                i <= TRAP_REGS,
                regs@.len() == i,
                forall|k: int| 0 <= k < i ==> #[trigger] regs@[k] == 0,
            decreases TRAP_REGS - i,
        {
            regs.push(0);
            i = i + 1;
        }
        TrapFrame { regs, sepc: 0 }
    }
}

/// The exception classes the kernel dispatches on.
#[derive(Clone, Copy, Debug, PartialEq, Eq, Structural)]
pub enum TrapCause {
    UserSyscall,
    LoadPageFault,
    StorePageFault,
    IllegalInstruction,
    Unknown,
}

/// What resolving a page fault asks the filesystem to do: read from the
/// backing file into the faulting page.
#[derive(Clone, Copy, Debug, PartialEq, Eq, Structural)]
pub struct FaultResolution {
    /// The backing file's id.
    pub file: u64,
    /// Offset of the faulting page in the file.
    pub offset: u64,
    /// Number of bytes to read.
    pub len: usize,
}

/// Completes a user syscall: steps the pc past the trap instruction and
/// writes the dispatcher's result into the return register. The dispatch
/// itself runs between the two trap-frame updates and hands its result
/// in.
pub fn syscall_exception_handler(tf: &mut TrapFrame, syscall_result: isize)
    requires
        old(tf).wf(),
        old(tf).sepc + 4 <= usize::MAX,
    ensures
        final(tf).wf(),
        final(tf).sepc == old(tf).sepc + 4,
        final(tf).regs@[10] == syscall_result as usize,
        forall|i: int|
            0 <= i < TRAP_REGS && i != 10 ==> #[trigger] final(tf).regs@[i] == old(tf).regs@[i],
{
    tf.sepc = tf.sepc + 4;
    tf.regs.set(10, syscall_result as usize);
}

/// Serves a load page fault: the process either resolves the fault to a
/// file read, or the fault is an error.
pub fn load_page_fault_exception_handler(resolution: Option<FaultResolution>) -> (r: AlienResult<
    FaultResolution,
>)
    ensures
        resolution is Some ==> r == Ok::<FaultResolution, AlienError>(resolution->Some_0),
        resolution is None ==> r == Err::<FaultResolution, AlienError>(AlienError::Other),
{
    match resolution {
        Some(f) => Ok(f),
        None => Err(AlienError::Other),
    }
}

/// Serves a store page fault: the process may resolve it with or without
/// a backing file read, or the fault is an error.
pub fn store_page_fault_exception_handler(resolution: Option<Option<FaultResolution>>) -> (r:
    AlienResult<Option<FaultResolution>>)
    ensures
        resolution is Some ==> r == Ok::<Option<FaultResolution>, AlienError>(resolution->Some_0),
        resolution is None ==> r == Err::<Option<FaultResolution>, AlienError>(AlienError::Other),
{
    match resolution {
        Some(f) => Ok(f),
        None => Err(AlienError::Other),
    }
}

/// Dispatches a page fault by its class; any other class is an error.
pub fn page_exception_handler(
    cause: TrapCause,
    load_resolution: Option<FaultResolution>,
    store_resolution: Option<Option<FaultResolution>>,
) -> (r: AlienResult<Option<FaultResolution>>)
    ensures
        cause == TrapCause::LoadPageFault && load_resolution is Some ==> r == Ok::<
            Option<FaultResolution>,
            AlienError,
        >(Some(load_resolution->Some_0)),
        cause == TrapCause::LoadPageFault && load_resolution is None ==> r == Err::<
            Option<FaultResolution>,
            AlienError,
        >(AlienError::Other),
        cause == TrapCause::StorePageFault && store_resolution is Some ==> r == Ok::<
            Option<FaultResolution>,
            AlienError,
        >(store_resolution->Some_0),
        cause == TrapCause::StorePageFault && store_resolution is None ==> r == Err::<
            Option<FaultResolution>,
            AlienError,
        >(AlienError::Other),
        cause != TrapCause::LoadPageFault && cause != TrapCause::StorePageFault ==> r == Err::<
            Option<FaultResolution>,
            AlienError,
        >(AlienError::Other),
{
    match cause {
        TrapCause::LoadPageFault => {
            match load_page_fault_exception_handler(load_resolution) {
                Ok(f) => Ok(Some(f)),
                Err(e) => Err(e),
            }
        },
        TrapCause::StorePageFault => store_page_fault_exception_handler(store_resolution),
        _ => Err(AlienError::Other),
    }
}

/// An illegal instruction is always an error to the faulting task.
pub fn illegal_instruction_exception_handler() -> (r: AlienResult<()>)
    ensures
        r == Err::<(), AlienError>(AlienError::Other),
{
    Err(AlienError::Other)
}

} // verus!
