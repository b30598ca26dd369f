//! Signal delivery.
//!
//! Each task owns a receiver record (pending and masked signal bits) and
//! a handler table. The handler path decides, for the lowest eligible
//! pending signal, whether the task exits, ignores it, or enters a user
//! handler; entering a handler rewrites the trap frame so that the user
//! resumes in the handler with the signal number in the argument
//! register and, for handlers that want the extra info, the two records
//! placed on a 16-byte-aligned user stack.

use crate::trap::{TrapFrame, TRAP_REGS};
use vstd::prelude::*;

verus! {

/// Signal numbers fit one machine word of bits.
pub const SIGNAL_BITS: usize = 64;

/// The signal whose default cannot be caught usefully: segmentation
/// fault.
pub const SIGSEGV: usize = 11;

/// Bus error; fatal like a segmentation fault.
pub const SIGBUS: usize = 7;

/// Child stopped or terminated: ignored by default.
pub const SIGCHLD: usize = 17;

/// Urgent socket condition: ignored by default.
pub const SIGURG: usize = 23;

/// Window resize: ignored by default.
pub const SIGWINCH: usize = 28;

/// Handler address meaning "ignore this signal".
pub const SIG_IGN_HANDLER: usize = 1;

/// Action flag: the handler wants the extra info records on its stack.
pub const SA_SIGINFO: u32 = 4;

/// `sys_sigprocmask` request: add the set to the mask.
pub const SIG_BLOCK: usize = 0;

/// `sys_sigprocmask` request: remove the set from the mask.
pub const SIG_UNBLOCK: usize = 1;

/// `sys_sigprocmask` request: replace the mask.
pub const SIG_SETMASK: usize = 2;

/// The error returned for an unknown mask request.
pub const EINVAL_RET: isize = -22;

/// The pending and masked signals of one task.
#[derive(Clone, Copy, Debug, PartialEq, Eq, Structural)]
pub struct SignalReceivers {
    /// Bits of signals blocked from delivery.
    pub mask: u64,
    /// Bits of signals raised and not yet delivered.
    pub pending: u64,
}

/// Whether signal `i` is pending and not masked.
pub open spec fn eligible(r: SignalReceivers, i: int) -> bool {
    0 <= i < SIGNAL_BITS && (r.pending >> i) & 1 == 1 && (r.mask >> i) & 1 == 0
}

impl SignalReceivers {
    /// A record with nothing pending and nothing masked.
    pub fn new() -> (r: SignalReceivers)
        ensures
            r.mask == 0,
            r.pending == 0,
    {
        SignalReceivers { mask: 0, pending: 0 }
    }

    /// Raises signal `signum`; a number out of range changes nothing.
    pub fn try_add_bit(&mut self, signum: usize) -> (r: bool)
        ensures
            final(self).mask == old(self).mask,
            signum < SIGNAL_BITS ==> r == true && final(self).pending == (old(self).pending | (
            1u64 << signum)),
            signum >= SIGNAL_BITS ==> r == false && final(self).pending == old(self).pending,
    {
        if signum < SIGNAL_BITS {
            self.pending = self.pending | (1u64 << signum);
            true
        } else {
            false
        }
    }

    /// Whether any unmasked signal is pending.
    pub fn have_signal(&self) -> (r: bool)
        ensures
            r == (self.pending & !self.mask != 0),
    {
        self.pending & !self.mask != 0
    }

    /// Takes the lowest pending unmasked signal, clearing its bit.
    pub fn get_one_signal(&mut self) -> (r: Option<usize>)
        ensures
            final(self).mask == old(self).mask,
            r is None ==> final(self).pending == old(self).pending && forall|j: int|
                0 <= j < SIGNAL_BITS ==> !eligible(*old(self), j),
            r matches Some(i) ==> {
                &&& eligible(*old(self), i as int)
                &&& forall|j: int| 0 <= j < i ==> !eligible(*old(self), j)
                &&& final(self).pending == (old(self).pending & !(1u64 << (i as usize)))
            },
    {
        let mut i: usize = 0;
        while i < SIGNAL_BITS
            invariant
                i <= SIGNAL_BITS,
                *self == *old(self),
                forall|j: int| 0 <= j < i ==> !eligible(*old(self), j),
            decreases SIGNAL_BITS - i,
        {
            if (self.pending >> i) & 1 == 1 && (self.mask >> i) & 1 == 0 {
                self.pending = self.pending & !(1u64 << i);
                return Some(i);
            }
            i = i + 1;
        }
        None
    }
}

/// One registered handler.
#[derive(Clone, Copy, Debug, PartialEq, Eq, Structural)]
pub struct SigAction {
    /// Address of the user handler, or the ignore marker.
    pub handler: usize,
    /// Behaviour flags; only the extra-info flag is read here.
    pub flags: u32,
    /// Address the handler returns to.
    pub restorer: usize,
}

impl SigAction {
    pub open spec fn spec_is_ignore(self) -> bool {
        self.handler == SIG_IGN_HANDLER
    }

    /// Whether this action ignores the signal.
    pub fn is_ignore(&self) -> (r: bool)
        ensures
            r == self.spec_is_ignore(),
    {
        self.handler == SIG_IGN_HANDLER
    }
}

/// A task's handler table, indexed by signal number.
pub struct SignalHandlers {
    pub actions: Vec<Option<SigAction>>,
}

impl SignalHandlers {
    pub open spec fn wf(self) -> bool {
        self.actions@.len() == SIGNAL_BITS
    }

    /// A table with no handler registered.
    pub fn new() -> (r: SignalHandlers)
        ensures
            r.wf(),
            forall|i: int| 0 <= i < SIGNAL_BITS ==> #[trigger] r.actions@[i] is None,
    {
        let mut actions: Vec<Option<SigAction>> = Vec::new();
        let mut i: usize = 0;
        while i < SIGNAL_BITS
            invariant
                i <= SIGNAL_BITS,
                actions@.len() == i,
                forall|k: int| 0 <= k < i ==> #[trigger] actions@[k] is None,
            decreases SIGNAL_BITS - i,
        {
            actions.push(None);
            i = i + 1;
        }
        SignalHandlers { actions }
    }

    /// Registers an action for `signum`.
    pub fn set_action(&mut self, signum: usize, action: SigAction)
        requires
            old(self).wf(),
            signum < SIGNAL_BITS,
        ensures
            final(self).wf(),
            final(self).actions@ == old(self).actions@.update(signum as int, Some(action)),
    {
        self.actions.set(signum, Some(action));
    }

    /// The action registered for `signum`, if any.
    pub fn get_action_ref(&self, signum: usize) -> (r: Option<SigAction>)
        requires
            self.wf(),
            signum < SIGNAL_BITS,
        ensures
            r == self.actions@[signum as int],
    {
        self.actions[signum]
    }
}

/// Whether the default disposition of `sig` is to ignore it.
pub open spec fn default_ignores(sig: int) -> bool {
    sig == SIGCHLD || sig == SIGURG || sig == SIGWINCH
}

/// What the handler path decided for the delivered signal.
#[derive(Clone, Copy, Debug, PartialEq, Eq, Structural)]
pub enum SignalDisposition {
    /// Nothing eligible was pending.
    NoPending,
    /// The task exits with a failure code.
    FatalExit,
    /// The signal is dropped.
    Ignored,
    /// The trap frame now enters the user handler. The two addresses
    /// carry where the extra info records were placed, if the handler
    /// asked for them.
    Handled { siginfo_addr: Option<usize>, ucontext_addr: Option<usize> },
}

/// Delivers the lowest eligible pending signal of the current task.
/// Fatal signals (or a missing handler whose default is not ignore) exit
/// the task; an ignoring handler or default drops the signal; otherwise
/// the trap frame is saved and rewritten to enter the user handler: the
/// return register names the restorer, the pc the handler, the first
/// argument the signal number, and, when the handler asked for the extra
/// info, the two records sit 16-byte aligned below the old stack
/// pointer, which drops by a fixed redzone first. `siginfo_size` and
/// `ucontext_size` are the ABI sizes of the two records.
pub fn signal_handler(
    receivers: &mut SignalReceivers,
    handlers: &SignalHandlers,
    tf: &mut TrapFrame,
    saved: &mut Option<TrapFrame>,
    siginfo_size: usize,
    ucontext_size: usize,
) -> (r: SignalDisposition)
    requires
        handlers.wf(),
        old(tf).wf(),
        old(tf).regs@[2] >= 0x100 + siginfo_size + ucontext_size + 16,
    ensures
        final(receivers).mask == old(receivers).mask,
        final(tf).wf(),
        r == SignalDisposition::NoPending ==> *final(tf) == *old(tf) && *final(saved) == *old(
            saved,
        ) && final(receivers).pending == old(receivers).pending && (forall|j: int|
            0 <= j < SIGNAL_BITS ==> !eligible(*old(receivers), j)),
        r == SignalDisposition::FatalExit ==> *final(tf) == *old(tf) && exists|i: int|
            #[trigger] eligible(*old(receivers), i) && (i == SIGSEGV || i == SIGBUS || (
            handlers.actions@[i] is None && !default_ignores(i))),
        r == SignalDisposition::Ignored ==> *final(tf) == *old(tf) && exists|i: int|
            #[trigger] eligible(*old(receivers), i) && (handlers.actions@[i] matches Some(a)
                && a.spec_is_ignore() || handlers.actions@[i] is None && default_ignores(i)),
        r matches SignalDisposition::Handled { siginfo_addr, ucontext_addr } ==> exists|i: int|
            {
                &&& #[trigger] eligible(*old(receivers), i)
                &&& handlers.actions@[i] matches Some(action)
                &&& !action.spec_is_ignore()
                &&& i != SIGSEGV && i != SIGBUS
                &&& (*final(saved)) matches Some(k) && k.regs@ == old(tf).regs@ && k.sepc == old(
                    tf,
                ).sepc
                &&& final(tf).sepc == action.handler
                &&& final(tf).regs@[1] == action.restorer
                &&& final(tf).regs@[10] == i
                &&& (action.flags & SA_SIGINFO == 0) ==> siginfo_addr is None
                    && ucontext_addr is None && final(tf).regs@[2] == old(tf).regs@[2] - 0x100
                &&& (action.flags & SA_SIGINFO != 0) ==> {
                    &&& siginfo_addr == Some(
                        ((old(tf).regs@[2] - 0x100 - siginfo_size) as usize) & !0xfusize,
                    )
                    &&& ucontext_addr is Some
                    &&& final(tf).regs@[11] == siginfo_addr->Some_0
                    &&& final(tf).regs@[12] == ucontext_addr->Some_0
                    &&& final(tf).regs@[2] == ucontext_addr->Some_0
                }
            },
{
    let got = receivers.get_one_signal();
    let signum = match got {
        None => {
            return SignalDisposition::NoPending;
        },
        Some(s) => s,
    };
    if signum == SIGSEGV || signum == SIGBUS {
        // The task cannot recover from these: it exits.
        proof {
            assert(eligible(*old(receivers), signum as int));
        }
        return SignalDisposition::FatalExit;
    }
    let action = handlers.get_action_ref(signum);
    match action {
        Some(action) => {
            if action.is_ignore() {
                proof {
                    assert(eligible(*old(receivers), signum as int));
                }
                return SignalDisposition::Ignored;
            }
            // Save the trap context, then rewrite it to enter the
            // handler on return to user mode.
            let ghost pre_tf = *tf;
            let mut keep = TrapFrame::new();
            let mut i: usize = 0;
            while i < TRAP_REGS
                invariant
                    i <= TRAP_REGS,
                    keep.regs@.len() == TRAP_REGS,
                    tf.wf(),
                    *tf == pre_tf,
                    forall|k: int| 0 <= k < i ==> #[trigger] keep.regs@[k] == pre_tf.regs@[k],
                decreases TRAP_REGS - i,
            {
                let v = tf.regs[i];
                keep.regs.set(i, v);
                i = i + 1;
            }
            keep.sepc = tf.sepc;
            proof {
                assert(keep.regs@ =~= pre_tf.regs@);
            }
            *saved = Some(keep);
            tf.regs.set(1, action.restorer);
            tf.sepc = action.handler;
            tf.regs.set(10, signum);
            let mut sp = tf.regs[2] - 0x100;
            if action.flags & SA_SIGINFO != 0 {
                let sp1 = sp - siginfo_size;
                proof {
                    assert((sp1 & !0xfusize) <= sp1 && (sp1 & !0xfusize) + 15 >= sp1)
                        by (bit_vector);
                }
                sp = sp1 & !0xfusize;
                let siginfo_addr = sp;
                tf.regs.set(11, siginfo_addr);
                sp = (sp - ucontext_size) & !0xfusize;
                let ucontext_addr = sp;
                tf.regs.set(12, ucontext_addr);
                tf.regs.set(2, sp);
                proof {
                    assert(eligible(*old(receivers), signum as int));
                }
                SignalDisposition::Handled {
                    siginfo_addr: Some(siginfo_addr),
                    ucontext_addr: Some(ucontext_addr),
                }
            } else {
                tf.regs.set(2, sp);
                proof {
                    assert(eligible(*old(receivers), signum as int));
                }
                SignalDisposition::Handled { siginfo_addr: None, ucontext_addr: None }
            }
        },
        None => {
            proof {
                assert(eligible(*old(receivers), signum as int));
            }
            if signum == SIGCHLD || signum == SIGURG || signum == SIGWINCH {
                SignalDisposition::Ignored
            } else {
                SignalDisposition::FatalExit
            }
        },
    }
}

/// Changes the current task's signal mask; the old mask is reported so
/// the caller can write it back to the user. An unknown request leaves
/// the mask alone and reports the invalid-argument code.
pub fn sys_sigprocmask(receivers: &mut SignalReceivers, how: usize, set: Option<u64>) -> (r: (
    isize,
    u64,
))
    ensures
        r.1 == old(receivers).mask,
        final(receivers).pending == old(receivers).pending,
        set is None ==> r.0 == 0 && final(receivers).mask == old(receivers).mask,
        set matches Some(s) ==> {
            &&& how == SIG_BLOCK ==> r.0 == 0 && final(receivers).mask == (old(receivers).mask
                | s)
            &&& how == SIG_UNBLOCK ==> r.0 == 0 && final(receivers).mask == (old(receivers).mask
                & !s)
            &&& how == SIG_SETMASK ==> r.0 == 0 && final(receivers).mask == s
            &&& how != SIG_BLOCK && how != SIG_UNBLOCK && how != SIG_SETMASK ==> r.0 == EINVAL_RET
                && final(receivers).mask == old(receivers).mask
        },
{
    let oldmask = receivers.mask;
    match set {
        None => (0, oldmask),
        Some(s) => {
            if how == SIG_BLOCK {
                receivers.mask = receivers.mask | s;
                (0, oldmask)
            } else if how == SIG_UNBLOCK {
                receivers.mask = receivers.mask & !s;
                (0, oldmask)
            } else if how == SIG_SETMASK {
                receivers.mask = s;
                (0, oldmask)
            } else {
                (EINVAL_RET, oldmask)
            }
        },
    }
}

/// Returns from a user signal handler: the trap context saved when the
/// handler was entered is restored, and the restored return-value
/// register is delivered so the interrupted flow resumes unchanged.
pub fn signal_return(tf: &mut TrapFrame, saved: &mut Option<TrapFrame>) -> (r: isize)
    requires
        (*old(saved)) matches Some(k) && k.wf() && k.regs@[10] <= isize::MAX,
    ensures
        final(tf).wf(),
        (*old(saved)) matches Some(k) ==> final(tf).regs@ == k.regs@ && final(tf).sepc == k.sepc
            && r == k.regs@[10],
        *final(saved) is None,
{
    let k = saved.take();
    match k {
        Some(frame) => {
            let r = frame.regs[10] as isize;
            *tf = frame;
            r
        },
        None => {
            // Ruled out by this function's contract.
            proof {
                assert(false);
            }
            -1
        },
    }
}

/// The process-wide table from thread id to signal receivers.
pub struct SignalTable {
    pub entries: Vec<(usize, SignalReceivers)>,
}

impl SignalTable {
    /// Thread ids are pairwise distinct.
    pub open spec fn wf(self) -> bool {
        forall|i: int, j: int|
            0 <= i < j < self.entries@.len() ==> self.entries@[i].0 != self.entries@[j].0
    }

    pub open spec fn spec_contains(self, tid: usize) -> bool {
        exists|i: int| 0 <= i < self.entries@.len() && self.entries@[i].0 == tid
    }

    pub open spec fn idx_of(self, tid: usize) -> int {
        choose|i: int| 0 <= i < self.entries@.len() && self.entries@[i].0 == tid
    }

    pub fn new() -> (r: SignalTable)
        ensures
            r.wf(),
            r.entries@.len() == 0,
    {
        SignalTable { entries: Vec::new() }
    }

    /// Finds the position of the entry for `tid`.
    fn find(&self, tid: usize) -> (r: Option<usize>)
        ensures
            match r {
                Some(i) => i < self.entries@.len() && self.entries@[i as int].0 == tid
                    && self.spec_contains(tid),
                None => !self.spec_contains(tid),
            },
    {
        let mut i: usize = 0;
        while i < self.entries.len()
            invariant
                i <= self.entries@.len(),
                forall|k: int| 0 <= k < i ==> self.entries@[k].0 != tid,
            decreases self.entries@.len() - i,
        {
            if self.entries[i].0 == tid {
                return Some(i);
            }
            i = i + 1;
        }
        None
    }
}

/// Joins a thread to the signal table at initialization.
pub fn global_register_signals(table: &mut SignalTable, tid: usize, signals: SignalReceivers)
    requires
        old(table).wf(),
    ensures
        final(table).wf(),
        final(table).spec_contains(tid),
        final(table).entries@[final(table).idx_of(tid)].1 == signals,
        forall|t: usize|
            final(table).spec_contains(t) <==> (old(table).spec_contains(t) || t == tid),
{
    let found = table.find(tid);
    let ghost pre = table.entries@;
    match found {
        Some(i) => {
            let entry = &mut table.entries[i];
            entry.1 = signals;
            proof {
                assert(table.wf()) by {
                    assert forall|x: int, y: int|
                        0 <= x < y < table.entries@.len() implies table.entries@[x].0
                        != table.entries@[y].0 by {
                        assert(pre[x].0 == table.entries@[x].0);
                        assert(pre[y].0 == table.entries@[y].0);
                    }
                }
                assert(table.idx_of(tid) == i) by {
                    let j = table.idx_of(tid);
                    assert(0 <= j < table.entries@.len() && table.entries@[j].0 == tid);
                }
                assert forall|t: usize| table.spec_contains(t) implies (pre[table.idx_of(
                    t,
                )].0 == t) by {
                    let j = table.idx_of(t);
                    assert(0 <= j < table.entries@.len() && table.entries@[j].0 == t);
                    assert(pre[j].0 == table.entries@[j].0);
                }
                assert forall|t: usize| old(table).spec_contains(t) implies table.spec_contains(
                    t,
                ) by {
                    let j = old(table).idx_of(t);
                    assert(0 <= j < pre.len() && pre[j].0 == t);
                    assert(table.entries@[j].0 == t);
                }
            }
        },
        None => {
            table.entries.push((tid, signals));
            proof {
                assert(table.entries@[pre.len() as int].0 == tid);
                assert(table.wf()) by {
                    assert forall|x: int, y: int|
                        0 <= x < y < table.entries@.len() implies table.entries@[x].0
                        != table.entries@[y].0 by {
                        if y < pre.len() {
                            assert(table.entries@[x] == pre[x]);
                            assert(table.entries@[y] == pre[y]);
                        } else {
                            assert(table.entries@[x] == pre[x]);
                            assert(!old(table).spec_contains(tid));
                            assert(pre[x].0 != tid);
                        }
                    }
                }
                assert(table.idx_of(tid) == pre.len()) by {
                    let j = table.idx_of(tid);
                    assert(0 <= j < table.entries@.len() && table.entries@[j].0 == tid);
                    if j < pre.len() {
                        assert(pre[j].0 == tid);
                    }
                }
                assert forall|t: usize| table.spec_contains(t) implies (old(table).spec_contains(
                    t,
                ) || t == tid) by {
                    let j = table.idx_of(t);
                    assert(0 <= j < table.entries@.len() && table.entries@[j].0 == t);
                    if j < pre.len() {
                        assert(pre[j].0 == t);
                    }
                }
                assert forall|t: usize| old(table).spec_contains(t) implies table.spec_contains(
                    t,
                ) by {
                    let j = old(table).idx_of(t);
                    assert(0 <= j < pre.len() && pre[j].0 == t);
                    assert(table.entries@[j].0 == t);
                }
            }
        },
    }
}

/// Removes a thread from the signal table at exit.
pub fn global_logoff_signals(table: &mut SignalTable, tid: usize)
    requires
        old(table).wf(),
    ensures
        final(table).wf(),
        !final(table).spec_contains(tid),
        forall|t: usize|
            t != tid ==> (final(table).spec_contains(t) == old(table).spec_contains(t)),
{
    let found = table.find(tid);
    match found {
        None => {},
        Some(i) => {
            let ghost pre = table.entries@;
            table.entries.remove(i);
            proof {
                assert forall|x: int, y: int|
                    0 <= x < y < table.entries@.len() implies table.entries@[x].0
                    != table.entries@[y].0 by {
                    if y < i {
                    } else if x < i {
                        assert(table.entries@[y] == pre[y + 1]);
                    } else {
                        assert(table.entries@[x] == pre[x + 1]);
                        assert(table.entries@[y] == pre[y + 1]);
                    }
                }
                assert(!table.spec_contains(tid)) by {
                    if table.spec_contains(tid) {
                        let j = table.idx_of(tid);
                        assert(0 <= j < table.entries@.len() && table.entries@[j].0 == tid);
                        let x = if j < i {
                            j
                        } else {
                            j + 1
                        };
                        assert(pre[x].0 == tid && pre[i as int].0 == tid && x != i);
                    }
                }
                assert forall|t: usize| t != tid && old(table).spec_contains(t) implies table
                    .spec_contains(t) by {
                    let j = old(table).idx_of(t);
                    assert(0 <= j < pre.len() && pre[j].0 == t);
                    assert(j != i);
                    if j < i {
                        assert(table.entries@[j] == pre[j]);
                    } else {
                        assert(table.entries@[j - 1] == pre[j]);
                    }
                }
                assert forall|t: usize| t != tid && table.spec_contains(t) implies old(
                    table,
                ).spec_contains(t) by {
                    let j = table.idx_of(t);
                    assert(0 <= j < table.entries@.len() && table.entries@[j].0 == t);
                    if j < i {
                        assert(pre[j] == table.entries@[j]);
                    } else {
                        assert(pre[j + 1] == table.entries@[j]);
                    }
                }
            }
        },
    }
}

/// Reads the signal record of a thread; the record itself stays in the
/// table.
pub fn get_signals_from_tid(table: &SignalTable, tid: usize) -> (r: Option<SignalReceivers>)
    requires
        table.wf(),
    ensures
        table.spec_contains(tid) ==> r == Some(table.entries@[table.idx_of(tid)].1),
        !table.spec_contains(tid) ==> r is None,
{
    let found = table.find(tid);
    match found {
        Some(i) => {
            proof {
                assert(table.idx_of(tid) == i) by {
                    let j = table.idx_of(tid);
                    assert(0 <= j < table.entries@.len() && table.entries@[j].0 == tid);
                }
            }
            Some(table.entries[i].1)
        },
        None => None,
    }
}

/// Raises `signum` for thread `tid`, if the thread is registered; a
/// number out of range changes nothing.
pub fn send_signal(table: &mut SignalTable, tid: usize, signum: usize)
    requires
        old(table).wf(),
    ensures
        final(table).wf(),
        !old(table).spec_contains(tid) ==> final(table).entries@ == old(table).entries@,
        old(table).spec_contains(tid) && signum < SIGNAL_BITS ==> {
            &&& final(table).spec_contains(tid)
            &&& final(table).entries@[final(table).idx_of(tid)].1.pending == (old(
                table,
            ).entries@[old(table).idx_of(tid)].1.pending | (1u64 << signum))
            &&& final(table).entries@[final(table).idx_of(tid)].1.mask == old(
                table,
            ).entries@[old(table).idx_of(tid)].1.mask
        },
        forall|t: usize| final(table).spec_contains(t) == old(table).spec_contains(t),
{
    let found = table.find(tid);
    match found {
        None => {},
        Some(i) => {
            let ghost pre = table.entries@;
            let entry = &mut table.entries[i];
            entry.1.try_add_bit(signum);
            proof {
                assert(table.entries@[i as int].0 == tid);
                assert(table.spec_contains(tid));
                assert(table.wf()) by {
                    assert forall|x: int, y: int|
                        0 <= x < y < table.entries@.len() implies table.entries@[x].0
                        != table.entries@[y].0 by {
                        assert(pre[x].0 == table.entries@[x].0);
                        assert(pre[y].0 == table.entries@[y].0);
                    }
                }
                assert(table.idx_of(tid) == i) by {
                    let j = table.idx_of(tid);
                    assert(0 <= j < table.entries@.len() && table.entries@[j].0 == tid);
                    if j < i {
                        assert(table.entries@[j].0 != table.entries@[i as int].0);
                    } else if j > i {
                        assert(table.entries@[i as int].0 != table.entries@[j].0);
                    }
                }
                assert(old(table).idx_of(tid) == i) by {
                    let j = old(table).idx_of(tid);
                    assert(0 <= j < pre.len() && pre[j].0 == tid);
                    if j < i {
                        assert(pre[j].0 != pre[i as int].0);
                    } else if j > i {
                        assert(pre[i as int].0 != pre[j].0);
                    }
                }
                assert forall|t: usize| table.spec_contains(t) == old(table).spec_contains(
                    t,
                ) by {
                    if table.spec_contains(t) {
                        let j = table.idx_of(t);
                        assert(0 <= j < table.entries@.len() && table.entries@[j].0 == t);
                        assert(pre[j].0 == t);
                    }
                    if old(table).spec_contains(t) {
                        let j = old(table).idx_of(t);
                        assert(0 <= j < pre.len() && pre[j].0 == t);
                        assert(table.entries@[j].0 == t);
                    }
                }
            }
        },
    }
}

} // verus!
