//! Kernel task model: the task shim a domain is handed, the chunked
//! copies it performs across scattered task pages, and kernel-thread
//! creation.

use crate::error::{AlienError, AlienResult};
use crate::libsyscall::{KTask, KTaskShim};
use crate::mem::FRAME_SIZE;
use vstd::prelude::*;

verus! {

/// Bytes of kernel stack given to each kernel thread.
pub const USER_KERNEL_STACK_SIZE: usize = 65536;

/// A thread context as saved and restored by the switch primitive.
#[derive(Clone, Copy, PartialEq, Eq, Structural)]
pub struct TaskContext {
    /// Return address the context resumes at.
    pub ra: usize,
    /// Stack pointer of the context.
    pub sp: usize,
}

impl TaskContext {
    /// A context that starts executing at `entry` on the stack `sp`.
    pub fn new(entry: usize, sp: usize) -> (r: TaskContext)
        ensures
            r.ra == entry,
            r.sp == sp,
    {
        TaskContext { ra: entry, sp }
    }
}

/// A kernel task as the shim exposes it to domains.
#[derive(Clone, Copy, PartialEq, Eq, Structural)]
pub struct KernelTask {
    pub tid: u64,
    /// True while the task waits to be woken.
    pub waiting: bool,
    /// True iff a signal is pending for the task.
    pub pending_signal: bool,
}

impl KTask for KernelTask {
    fn to_wait(&mut self) {
        self.waiting = true;
    }

    fn to_wakeup(&mut self) {
        self.waiting = false;
    }

    fn have_signal(&self) -> bool {
        self.pending_signal
    }
}

/// The task shim bound to one domain: the current task, the run queue it
/// can push into, and the address window for task-space pointers.
pub struct TaskShim {
    pub current: KernelTask,
    pub queue: Vec<KernelTask>,
    /// Offset translating a task-space address into kernel space.
    pub va_offset: usize,
    /// Number of suspensions requested through the shim.
    pub suspend_count: u64,
}

impl TaskShim {
    pub open spec fn spec_current(self) -> KernelTask {
        self.current
    }

    /// A shim for `current`, translating through `va_offset`.
    pub fn new(current: KernelTask, va_offset: usize) -> (r: TaskShim)
        ensures
            r.current == current,
            r.queue@.len() == 0,
            r.va_offset == va_offset,
            r.suspend_count == 0,
    {
        TaskShim { current, queue: Vec::new(), va_offset, suspend_count: 0 }
    }

    /// The task currently running on this hart.
    pub fn get_current(&self) -> (r: KernelTask)
        ensures
            r == self.spec_current(),
    {
        self.current
    }

    /// Puts a task back into the run queue.
    pub fn enqueue(&mut self, task: KernelTask)
        ensures
            final(self).queue@ == old(self).queue@.push(task),
            final(self).current == old(self).current,
            final(self).va_offset == old(self).va_offset,
            final(self).suspend_count == old(self).suspend_count,
    {
        self.queue.push(task);
    }

    /// Suspends the current task once.
    pub fn do_suspend(&mut self)
        requires
            old(self).suspend_count < u64::MAX,
        ensures
            final(self).suspend_count == old(self).suspend_count + 1,
            final(self).queue@ == old(self).queue@,
            final(self).current == old(self).current,
            final(self).va_offset == old(self).va_offset,
    {
        self.suspend_count = self.suspend_count + 1;
    }

    /// Translates a task-space address into kernel space.
    pub fn translate(&self, ptr: usize) -> (r: usize)
        requires
            ptr + self.va_offset <= usize::MAX,
        ensures
            r == ptr + self.va_offset,
    {
        ptr + self.va_offset
    }
}

impl KTaskShim for TaskShim {
    fn get_task(&self) -> KernelTask {
        self.get_current()
    }

    fn put_task(&mut self, task: KernelTask) {
        self.enqueue(task)
    }

    fn suspend(&mut self) {
        if self.suspend_count < u64::MAX {
            self.do_suspend()
        }
    }

    fn transfer_ptr_raw(&self, ptr: usize) -> usize {
        if ptr <= usize::MAX - self.va_offset {
            self.translate(ptr)
        } else {
            ptr
        }
    }
}

/// Total length of the first `i` buffers.
pub open spec fn prefix_len(bufs: Seq<Vec<u8>>, i: int) -> int
    decreases i,
{
    if i <= 0 {
        0
    } else {
        prefix_len(bufs, i - 1) + bufs[i - 1]@.len()
    }
}

/// Total length of all buffers.
pub open spec fn total_len(bufs: Seq<Vec<u8>>) -> int {
    prefix_len(bufs, bufs.len() as int)
}

/// The byte at global position `p` of the concatenated buffers.
pub open spec fn byte_at(bufs: Seq<Vec<u8>>, p: int) -> u8
    decreases bufs.len(),
{
    if bufs.len() == 0 {
        0
    } else if p < bufs[0]@.len() {
        bufs[0]@[p]
    } else {
        byte_at(bufs.drop_first(), p - bufs[0]@.len())
    }
}

/// Prefix lengths are monotone in `i` and never negative.
pub proof fn lemma_prefix_len_mono(bufs: Seq<Vec<u8>>, i: int, j: int)
    requires
        0 <= i <= j,
    ensures
        0 <= prefix_len(bufs, i) <= prefix_len(bufs, j),
    decreases j - i,
{
    if i == j {
        lemma_prefix_len_nonneg(bufs, i);
    } else {
        lemma_prefix_len_mono(bufs, i, j - 1);
    }
}

/// A prefix length is never negative.
pub proof fn lemma_prefix_len_nonneg(bufs: Seq<Vec<u8>>, i: int)
    ensures
        prefix_len(bufs, i) >= 0,
    decreases (if i > 0 {
        i
    } else {
        0
    }),
{
    if i > 0 {
        lemma_prefix_len_nonneg(bufs, i - 1);
    }
}

/// Dropping the first buffer shifts prefix lengths by its length.
pub proof fn lemma_prefix_len_drop_first(bufs: Seq<Vec<u8>>, i: int)
    requires
        bufs.len() >= 1,
        1 <= i <= bufs.len(),
    ensures
        prefix_len(bufs, i) == bufs[0]@.len() + prefix_len(bufs.drop_first(), i - 1),
    decreases i,
{
    if i == 1 {
        assert(prefix_len(bufs, 1) == prefix_len(bufs, 0) + bufs[0]@.len());
        assert(prefix_len(bufs.drop_first(), 0) == 0);
    } else {
        lemma_prefix_len_drop_first(bufs, i - 1);
        assert(bufs.drop_first()[i - 2] == bufs[i - 1]);
        assert(prefix_len(bufs, i) == prefix_len(bufs, i - 1) + bufs[i - 1]@.len());
        assert(prefix_len(bufs.drop_first(), i - 1) == prefix_len(bufs.drop_first(), i - 2)
            + bufs.drop_first()[i - 2]@.len());
    }
}

/// The byte at global position `prefix_len(bufs, i) + j` is byte `j` of
/// buffer `i`, and that position lies below the total length.
pub proof fn lemma_byte_at_buffer(bufs: Seq<Vec<u8>>, i: int, j: int)
    requires
        0 <= i < bufs.len(),
        0 <= j < bufs[i]@.len(),
    ensures
        byte_at(bufs, prefix_len(bufs, i) + j) == bufs[i]@[j],
        prefix_len(bufs, i) + j < total_len(bufs),
    decreases i,
{
    lemma_prefix_len_nonneg(bufs, i);
    lemma_prefix_len_mono(bufs, i + 1, bufs.len() as int);
    if i == 0 {
    } else {
        let rest = bufs.drop_first();
        lemma_prefix_len_drop_first(bufs, i);
        lemma_byte_at_buffer(rest, i - 1, j);
        assert(rest[i - 1] == bufs[i]);
        lemma_prefix_len_nonneg(rest, i - 1);
        assert(prefix_len(bufs, i) + j - bufs[0]@.len() == prefix_len(rest, i - 1) + j);
        assert(prefix_len(bufs, i) + j >= bufs[0]@.len());
        lemma_prefix_len_drop_first(bufs, bufs.len() as int);
    }
}

/// Scatter copy: writes `src` across the buffers in order, clamping each
/// chunk to the space its buffer offers; bytes past the end of `src` keep
/// their old values.
pub fn scatter_copy(src: &Vec<u8>, bufs: &mut Vec<Vec<u8>>)
    ensures
        final(bufs)@.len() == old(bufs)@.len(),
        forall|i: int|
            0 <= i < old(bufs)@.len() ==> (#[trigger] final(bufs)@[i])@.len() == old(
                bufs,
            )@[i]@.len(),
        forall|i: int, j: int|
            0 <= i < old(bufs)@.len() && 0 <= j < old(bufs)@[i]@.len() ==> (#[trigger] final(bufs)@[i]@[j]) == (if prefix_len(old(bufs)@, i) + j < src@.len() {
                src@[prefix_len(old(bufs)@, i) + j]
            } else {
                old(bufs)@[i]@[j]
            }),
{
    let size = src.len();
    let mut start: usize = 0;
    let mut i: usize = 0;
    let n = bufs.len();
    while i < n
        invariant
            n == bufs@.len(),
            bufs@.len() == old(bufs)@.len(),
            i <= n,
            size == src@.len(),
            start == (if prefix_len(old(bufs)@, i as int) < size {
                prefix_len(old(bufs)@, i as int)
            } else {
                size as int
            }),
            forall|k: int| i <= k < n ==> #[trigger] bufs@[k] == old(bufs)@[k],
            forall|k: int|
                0 <= k < i ==> (#[trigger] bufs@[k])@.len() == old(bufs)@[k]@.len(),
            forall|k: int, j: int|
                0 <= k < i && 0 <= j < old(bufs)@[k]@.len() ==> (#[trigger] bufs@[k]@[j]) == (
                if prefix_len(old(bufs)@, k) + j < src@.len() {
                    src@[prefix_len(old(bufs)@, k) + j]
                } else {
                    old(bufs)@[k]@[j]
                }),
        decreases n - i,
    {
        proof {
            lemma_prefix_len_nonneg(old(bufs)@, i as int);
        }
        let blen = bufs[i].len();
        let len: usize = if blen > size - start {
            size - start
        } else {
            blen
        };
        let mut nb: Vec<u8> = Vec::new();
        let mut j: usize = 0;
        while j < blen
            invariant
                j <= blen,
                0 <= i < bufs@.len(),
                blen == bufs@[i as int]@.len(),
                len <= blen,
                start + len <= size,
                size == src@.len(),
                len == (if blen > size - start {
                    size - start
                } else {
                    blen as int
                }),
                nb@.len() == j,
                forall|jj: int|
                    0 <= jj < j ==> #[trigger] nb@[jj] == (if jj < len {
                        src@[start + jj]
                    } else {
                        bufs@[i as int]@[jj]
                    }),
            decreases blen - j,
        {
            if j < len {
                nb.push(src[start + j]);
            } else {
                let b = bufs[i][j];
                nb.push(b);
            }
            j = j + 1;
        }
        let ghost pre = bufs@;
        bufs.set(i, nb);
        start = start + len;
        i = i + 1;
        proof {
            assert(pre[i - 1] == old(bufs)@[i - 1]);
            assert(prefix_len(old(bufs)@, i as int) == prefix_len(old(bufs)@, i - 1) + old(
                bufs,
            )@[i - 1]@.len());
            assert forall|k: int, j: int|
                0 <= k < i && 0 <= j < old(bufs)@[k]@.len() implies (#[trigger] bufs@[k]@[j]) == (
            if prefix_len(old(bufs)@, k) + j < src@.len() {
                src@[prefix_len(old(bufs)@, k) + j]
            } else {
                old(bufs)@[k]@[j]
            }) by {
                if k == i - 1 {
                    lemma_prefix_len_nonneg(old(bufs)@, k);
                }
            }
        }
    }
}

/// Gather copy: fills `dst` from the concatenated buffers; positions past
/// the buffers' total length keep their old values.
pub fn gather_copy(bufs: &Vec<Vec<u8>>, dst: &mut Vec<u8>)
    ensures
        final(dst)@.len() == old(dst)@.len(),
        forall|p: int|
            0 <= p < old(dst)@.len() ==> #[trigger] final(dst)@[p] == (if p < total_len(bufs@) {
                byte_at(bufs@, p)
            } else {
                old(dst)@[p]
            }),
{
    let size = dst.len();
    let mut start: usize = 0;
    let mut i: usize = 0;
    let n = bufs.len();
    while i < n
        invariant
            n == bufs@.len(),
            i <= n,
            size == dst@.len(),
            dst@.len() == old(dst)@.len(),
            start == (if prefix_len(bufs@, i as int) < size {
                prefix_len(bufs@, i as int)
            } else {
                size as int
            }),
            forall|p: int|
                0 <= p < start ==> #[trigger] dst@[p] == byte_at(bufs@, p),
            forall|p: int| start <= p < size ==> #[trigger] dst@[p] == old(dst)@[p],
            start <= prefix_len(bufs@, i as int),
        decreases n - i,
    {
        proof {
            lemma_prefix_len_nonneg(bufs@, i as int);
        }
        let blen = bufs[i].len();
        let len: usize = if blen > size - start {
            size - start
        } else {
            blen
        };
        let mut j: usize = 0;
        while j < len
            invariant
                j <= len,
                0 <= i < bufs@.len(),
                blen == bufs@[i as int]@.len(),
                len <= blen,
                start + len <= size,
                size == dst@.len(),
                dst@.len() == old(dst)@.len(),
                start == prefix_len(bufs@, i as int) || len == 0,
                forall|p: int|
                    0 <= p < start + j ==> #[trigger] dst@[p] == byte_at(bufs@, p),
                forall|p: int| start + j <= p < size ==> #[trigger] dst@[p] == old(dst)@[p],
            decreases len - j,
        {
            let b = bufs[i][j];
            dst.set(start + j, b);
            proof {
                lemma_byte_at_buffer(bufs@, i as int, j as int);
            }
            j = j + 1;
        }
        proof {
            assert(prefix_len(bufs@, i + 1) == prefix_len(bufs@, i as int) + blen);
            lemma_prefix_len_nonneg(bufs@, i as int);
        }
        start = start + len;
        i = i + 1;
    }
    proof {
        lemma_prefix_len_mono(bufs@, i as int, bufs@.len() as int);
        assert forall|p: int| 0 <= p < old(dst)@.len() implies #[trigger] dst@[p] == (if p
            < total_len(bufs@) {
            byte_at(bufs@, p)
        } else {
            old(dst)@[p]
        }) by {
            if p >= start && p < total_len(bufs@) {
                assert(start == size || start == total_len(bufs@));
            }
        }
    }
}

/// Allocates monotonically increasing task ids, unique for the lifetime of
/// the process.
pub struct TidAllocator {
    pub next: u64,
}

impl TidAllocator {
    pub fn new() -> (r: TidAllocator)
        ensures
            r.next == 0,
    {
        TidAllocator { next: 0 }
    }

    /// Hands out the next fresh id.
    pub fn allocate(&mut self) -> (r: u64)
        requires
            old(self).next < u64::MAX,
        ensures
            r == old(self).next,
            final(self).next == old(self).next + 1,
    {
        let r = self.next;
        self.next = self.next + 1;
        r
    }
}

/// A task's table of open file ids.
pub struct FdManager {
    pub table: Vec<u64>,
}

impl FdManager {
    pub fn new() -> (r: FdManager)
        ensures
            r.table@.len() == 0,
    {
        FdManager { table: Vec::new() }
    }

    /// Inserts a file id at the next free descriptor; returns it.
    pub fn insert(&mut self, file: u64) -> (fd: usize)
        ensures
            fd == old(self).table@.len(),
            final(self).table@ == old(self).table@.push(file),
    {
        let fd = self.table.len();
        self.table.push(file);
        fd
    }

    /// The file id behind descriptor `fd`, if open.
    pub fn get(&self, fd: usize) -> (r: Option<u64>)
        ensures
            fd < self.table@.len() ==> r == Some(self.table@[fd as int]),
            fd >= self.table@.len() ==> r is None,
    {
        if fd < self.table.len() {
            Some(self.table[fd])
        } else {
            None
        }
    }
}

/// A kernel stack of `frames` frames; the stack grows down from `top`.
#[derive(Clone, Copy, PartialEq, Eq, Structural)]
pub struct KStack {
    pub frames: usize,
    pub top: usize,
}

impl KStack {
    pub fn new(frames: usize, base: usize) -> (r: KStack)
        requires
            base + frames * FRAME_SIZE <= usize::MAX,
        ensures
            r.frames == frames,
            r.top == base + frames * FRAME_SIZE,
    {
        KStack { frames, top: base + frames * FRAME_SIZE }
    }
}

/// Scheduling state of a task.
#[derive(Clone, Copy, Debug, PartialEq, Eq, Structural)]
pub enum TaskStatus {
    Ready,
    Running,
    Waiting,
    Zombie,
}

/// One kernel task.
pub struct Task {
    pub tid: u64,
    pub pid: u64,
    pub kernel_stack: KStack,
    pub fd_table: FdManager,
    pub thread_number: usize,
    pub status: TaskStatus,
    pub context: TaskContext,
    pub exit_code: i32,
}

/// The process-wide pool of runnable tasks.
pub struct TaskManager {
    pub queue: Vec<Task>,
}

impl TaskManager {
    pub fn new() -> (r: TaskManager)
        ensures
            r.queue@.len() == 0,
    {
        TaskManager { queue: Vec::new() }
    }
}

/// Creates a kernel thread that starts at `entry`: allocates a fresh tid
/// (which doubles as its pid), builds a kernel stack, opens stdin and
/// stdout twice (stdout and stderr share), and queues the task ready.
pub fn ktread_create(
    mgr: &mut TaskManager,
    tids: &mut TidAllocator,
    stack_base: usize,
    entry: usize,
    name: &str,
) -> (r: AlienResult<()>)
    requires
        old(tids).next < u64::MAX,
        stack_base + USER_KERNEL_STACK_SIZE <= usize::MAX,
    ensures
        r is Ok,
        final(tids).next == old(tids).next + 1,
        final(mgr).queue@.len() == old(mgr).queue@.len() + 1,
        final(mgr).queue@.drop_last() == old(mgr).queue@,
        ({
            let t = final(mgr).queue@.last();
            &&& t.tid == old(tids).next
            &&& t.pid == old(tids).next
            &&& t.status == TaskStatus::Ready
            &&& t.context.ra == entry
            &&& t.context.sp == stack_base + USER_KERNEL_STACK_SIZE
            &&& t.fd_table.table@ == seq![
                crate::vfs_tree::VFS_STDIN_ID,
                crate::vfs_tree::VFS_STDOUT_ID,
                crate::vfs_tree::VFS_STDOUT_ID,
            ]
            &&& t.thread_number == 0
            &&& t.exit_code == 0
        }),
{
    let tid = tids.allocate();
    let k_stack = KStack::new(USER_KERNEL_STACK_SIZE / FRAME_SIZE, stack_base);
    proof {
        assert(USER_KERNEL_STACK_SIZE / FRAME_SIZE * FRAME_SIZE == USER_KERNEL_STACK_SIZE);
    }
    let mut fd_table = FdManager::new();
    fd_table.insert(crate::vfs_tree::VFS_STDIN_ID);
    fd_table.insert(crate::vfs_tree::VFS_STDOUT_ID);
    fd_table.insert(crate::vfs_tree::VFS_STDOUT_ID);
    proof {
        assert(fd_table.table@ =~= seq![
            crate::vfs_tree::VFS_STDIN_ID,
            crate::vfs_tree::VFS_STDOUT_ID,
            crate::vfs_tree::VFS_STDOUT_ID,
        ]);
    }
    let task = Task {
        tid,
        pid: tid,
        kernel_stack: k_stack,
        fd_table,
        thread_number: 0,
        status: TaskStatus::Ready,
        context: TaskContext::new(entry, k_stack.top),
        exit_code: 0,
    };
    mgr.queue.push(task);
    proof {
        assert(mgr.queue@.drop_last() =~= old(mgr).queue@);
    }
    Ok(())
}

/// Puts the init process, already loaded by the filesystem layer, into the
/// task pool as the first runnable task.
pub fn init_process(mgr: &mut TaskManager, init_task: Task)
    ensures
        final(mgr).queue@.len() == old(mgr).queue@.len() + 1,
        final(mgr).queue@.drop_last() == old(mgr).queue@,
        final(mgr).queue@.last() == init_task,
{
    mgr.queue.push(init_task);
    proof {
        assert(mgr.queue@.drop_last() =~= old(mgr).queue@);
    }
}

} // verus!
