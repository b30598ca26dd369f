//! Proxies of the process-management capability sets: the task domain,
//! the syscall-dispatch domain, and the two filesystem-facing domains
//! whose capability sets are empty beyond liveness. The task and syscall
//! domains are collaborators whose internals are not designed here; the
//! models report recorded state, and the proxies guard every call.

use crate::domains::{FsDomain, SysCallDomain, TaskDomain, VfsDomain};
use crate::error::{AlienError, AlienResult};
use vstd::prelude::*;

verus! {

/// The tids of `s` other than `tid`.
pub open spec fn without_tid(s: Seq<usize>, tid: usize) -> Seq<usize> {
    s.filter(|t: usize| t != tid)
}

/// One step of filtering a tid out of a wait list.
pub proof fn lemma_without_tid_step(s: Seq<usize>, k: int, tid: usize)
    requires
        0 <= k < s.len(),
    ensures
        s[k] != tid ==> without_tid(s.take(k + 1), tid) == without_tid(s.take(k), tid).push(s[k]),
        s[k] == tid ==> without_tid(s.take(k + 1), tid) == without_tid(s.take(k), tid),
{
    reveal(Seq::filter);
    assert(s.take(k + 1).drop_last() =~= s.take(k));
    assert(s.take(k + 1).last() == s[k]);
}

/// The proxy guarding the task-management domain.
pub struct TaskDomainProxy {
    pub id: u64,
    pub domain: TaskDomain,
}

impl TaskDomainProxy {
    pub fn new(id: u64, domain: TaskDomain) -> (r: TaskDomainProxy)
        ensures
            r.id == id,
            r.domain == domain,
    {
        TaskDomainProxy { id, domain }
    }

    pub fn is_active(&self) -> (r: bool)
        ensures
            r == self.domain.active,
    {
        self.domain.active
    }

    /// Init-style calls pass through without the activation guard.
    pub fn init(&mut self) -> (r: AlienResult<()>)
        ensures
            r == Ok::<(), AlienError>(()),
            *final(self) == *old(self),
    {
        Ok(())
    }

    /// Enters the task domain's scheduling loop; a call on a downed
    /// domain returns instead of entering.
    pub fn run(&mut self)
        ensures
            *final(self) == *old(self),
    {
        if !self.domain.active {
            return ;
        }
    }

    /// The virtual address of the current task's trap frame.
    pub fn trap_frame_virt_addr(&self) -> (r: AlienResult<usize>)
        ensures
            !self.domain.active ==> r == Err::<usize, AlienError>(AlienError::DomainCrash),
            self.domain.active ==> r == Ok::<usize, AlienError>(self.domain.trap_frame_virt),
    {
        if !self.domain.active {
            return Err(AlienError::DomainCrash);
        }
        Ok(self.domain.trap_frame_virt)
    }

    /// The current task's address-translation root.
    pub fn current_task_satp(&self) -> (r: AlienResult<usize>)
        ensures
            !self.domain.active ==> r == Err::<usize, AlienError>(AlienError::DomainCrash),
            self.domain.active ==> r == Ok::<usize, AlienError>(self.domain.satp),
    {
        if !self.domain.active {
            return Err(AlienError::DomainCrash);
        }
        Ok(self.domain.satp)
    }

    /// The physical address of the current task's trap frame.
    pub fn trap_frame_phy_addr(&self) -> (r: AlienResult<usize>)
        ensures
            !self.domain.active ==> r == Err::<usize, AlienError>(AlienError::DomainCrash),
            self.domain.active ==> r == Ok::<usize, AlienError>(self.domain.trap_frame_phy),
    {
        if !self.domain.active {
            return Err(AlienError::DomainCrash);
        }
        Ok(self.domain.trap_frame_phy)
    }

    /// The bounds of the current task's heap.
    pub fn heap_info(&self) -> (r: AlienResult<(usize, usize)>)
        ensures
            !self.domain.active ==> r == Err::<(usize, usize), AlienError>(
                AlienError::DomainCrash,
            ),
            self.domain.active ==> r == Ok::<(usize, usize), AlienError>(
                (self.domain.heap_start, self.domain.heap_end),
            ),
    {
        if !self.domain.active {
            return Err(AlienError::DomainCrash);
        }
        Ok((self.domain.heap_start, self.domain.heap_end))
    }

    /// The file id behind descriptor `fd` of the current task.
    pub fn get_fd(&self, fd: usize) -> (r: AlienResult<u64>)
        ensures
            !self.domain.active ==> r == Err::<u64, AlienError>(AlienError::DomainCrash),
            self.domain.active && (fd as int) < self.domain.fds@.len() ==> r == Ok::<
                u64,
                AlienError,
            >(self.domain.fds@[fd as int]),
            self.domain.active && (fd as int) >= self.domain.fds@.len() ==> r == Err::<
                u64,
                AlienError,
            >(AlienError::InvalidArg),
    {
        if !self.domain.active {
            return Err(AlienError::DomainCrash);
        }
        if fd < self.domain.fds.len() {
            Ok(self.domain.fds[fd])
        } else {
            Err(AlienError::InvalidArg)
        }
    }

    /// Copies `len` bytes of kernel data into the current task.
    pub fn copy_to_user(&self, src: &Vec<u8>, dst: &mut Vec<u8>, len: usize) -> (r: AlienResult<
        (),
    >)
        requires
            len <= src@.len(),
            len <= old(dst)@.len(),
        ensures
            final(dst)@.len() == old(dst)@.len(),
            !self.domain.active ==> r == Err::<(), AlienError>(AlienError::DomainCrash) && final(dst)@ == old(dst)@,
            self.domain.active ==> r == Ok::<(), AlienError>(()) && forall|k: int|
                0 <= k < old(dst)@.len() ==> #[trigger] final(dst)@[k] == (if k < len {
                    src@[k]
                } else {
                    old(dst)@[k]
                }),
    {
        if !self.domain.active {
            return Err(AlienError::DomainCrash);
        }
        let mut k: usize = 0;
        while k < len
            invariant
                k <= len,
                len <= src@.len(),
                len <= dst@.len(),
                dst@.len() == old(dst)@.len(),
                forall|j: int|
                    0 <= j < old(dst)@.len() ==> #[trigger] dst@[j] == (if j < k {
                        src@[j]
                    } else {
                        old(dst)@[j]
                    }),
            decreases len - k,
        {
            let b = src[k];
            dst.set(k, b);
            k = k + 1;
        }
        Ok(())
    }

    /// Copies `len` bytes out of the current task into kernel data.
    pub fn copy_from_user(&self, src: &Vec<u8>, dst: &mut Vec<u8>, len: usize) -> (r: AlienResult<
        (),
    >)
        requires
            len <= src@.len(),
            len <= old(dst)@.len(),
        ensures
            final(dst)@.len() == old(dst)@.len(),
            !self.domain.active ==> r == Err::<(), AlienError>(AlienError::DomainCrash) && final(dst)@ == old(dst)@,
            self.domain.active ==> r == Ok::<(), AlienError>(()) && forall|k: int|
                0 <= k < old(dst)@.len() ==> #[trigger] final(dst)@[k] == (if k < len {
                    src@[k]
                } else {
                    old(dst)@[k]
                }),
    {
        if !self.domain.active {
            return Err(AlienError::DomainCrash);
        }
        let mut k: usize = 0;
        while k < len
            invariant
                k <= len,
                len <= src@.len(),
                len <= dst@.len(),
                dst@.len() == old(dst)@.len(),
                forall|j: int|
                    0 <= j < old(dst)@.len() ==> #[trigger] dst@[j] == (if j < k {
                        src@[j]
                    } else {
                        old(dst)@[j]
                    }),
            decreases len - k,
        {
            let b = src[k];
            dst.set(k, b);
            k = k + 1;
        }
        Ok(())
    }

    /// The current task's thread id.
    pub fn current_tid(&self) -> (r: AlienResult<usize>)
        ensures
            !self.domain.active ==> r == Err::<usize, AlienError>(AlienError::DomainCrash),
            self.domain.active ==> r == Ok::<usize, AlienError>(self.domain.current_tid),
    {
        if !self.domain.active {
            return Err(AlienError::DomainCrash);
        }
        Ok(self.domain.current_tid)
    }

    /// The current task's process id.
    pub fn current_pid(&self) -> (r: AlienResult<usize>)
        ensures
            !self.domain.active ==> r == Err::<usize, AlienError>(AlienError::DomainCrash),
            self.domain.active ==> r == Ok::<usize, AlienError>(self.domain.current_pid),
    {
        if !self.domain.active {
            return Err(AlienError::DomainCrash);
        }
        Ok(self.domain.current_pid)
    }

    /// The current task's parent process id.
    pub fn current_ppid(&self) -> (r: AlienResult<usize>)
        ensures
            !self.domain.active ==> r == Err::<usize, AlienError>(AlienError::DomainCrash),
            self.domain.active ==> r == Ok::<usize, AlienError>(self.domain.current_ppid),
    {
        if !self.domain.active {
            return Err(AlienError::DomainCrash);
        }
        Ok(self.domain.current_ppid)
    }

    /// Puts the current task on the wait list.
    pub fn current_to_wait(&mut self) -> (r: AlienResult<()>)
        ensures
            final(self).id == old(self).id,
            !old(self).domain.active ==> r == Err::<(), AlienError>(AlienError::DomainCrash)
                && *final(self) == *old(self),
            old(self).domain.active ==> r == Ok::<(), AlienError>(()) && final(self).domain.waiting@
                == old(self).domain.waiting@.push(old(self).domain.current_tid) && final(self).domain.active && final(self).domain.current_tid == old(self).domain.current_tid,
    {
        if !self.domain.active {
            return Err(AlienError::DomainCrash);
        }
        let tid = self.domain.current_tid;
        self.domain.waiting.push(tid);
        Ok(())
    }

    /// Wakes every waiter with thread id `tid`.
    pub fn wake_up_wait_task(&mut self, tid: usize) -> (r: AlienResult<()>)
        ensures
            final(self).id == old(self).id,
            !old(self).domain.active ==> r == Err::<(), AlienError>(AlienError::DomainCrash)
                && *final(self) == *old(self),
            old(self).domain.active ==> r == Ok::<(), AlienError>(()) && final(self).domain.waiting@
                == without_tid(old(self).domain.waiting@, tid) && final(self).domain.active
                && final(self).domain.current_tid == old(self).domain.current_tid && final(self).domain.fds@ == old(self).domain.fds@ && final(self).domain.brk == old(
                self,
            ).domain.brk,
    {
        if !self.domain.active {
            return Err(AlienError::DomainCrash);
        }
        let ghost pre = self.domain.waiting@;
        let mut kept: Vec<usize> = Vec::new();
        let mut k: usize = 0;
        let n = self.domain.waiting.len();
        proof {
            reveal(Seq::filter);
            assert(pre.take(0) =~= Seq::<usize>::empty());
            assert(without_tid(pre.take(0), tid) =~= Seq::<usize>::empty());
        }
        while k < n
            invariant
                n == pre.len(),
                self.domain.waiting@ == pre,
                k <= n,
                kept@ == without_tid(pre.take(k as int), tid),
            decreases n - k,
        {
            let t = self.domain.waiting[k];
            proof {
                lemma_without_tid_step(pre, k as int, tid);
            }
            let ghost kept_pre = kept@;
            if t != tid {
                kept.push(t);
            }
            k = k + 1;
        }
        proof {
            assert(pre.take(n as int) =~= pre);
        }
        self.domain.waiting = kept;
        Ok(())
    }

    /// Moves the current task's program break: querying with zero reports
    /// it, any other address sets it.
    pub fn do_brk(&mut self, addr: usize) -> (r: AlienResult<isize>)
        requires
            old(self).domain.brk <= isize::MAX,
            addr <= isize::MAX,
        ensures
            final(self).id == old(self).id,
            !old(self).domain.active ==> r == Err::<isize, AlienError>(AlienError::DomainCrash)
                && *final(self) == *old(self),
            old(self).domain.active && addr == 0 ==> r == Ok::<isize, AlienError>(
                old(self).domain.brk as isize,
            ) && *final(self) == *old(self),
            old(self).domain.active && addr != 0 ==> r == Ok::<isize, AlienError>(addr as isize)
                && final(self).domain.brk == addr && final(self).domain.active && final(self).domain.waiting@ == old(self).domain.waiting@ && final(self).domain.fds@ == old(
                self,
            ).domain.fds@,
    {
        if !self.domain.active {
            return Err(AlienError::DomainCrash);
        }
        if addr == 0 {
            return Ok(self.domain.brk as isize);
        }
        self.domain.brk = addr;
        Ok(addr as isize)
    }

    /// Creates a new thread; the fresh thread id follows the current one.
    /// The clone itself is the task domain's work; the model reports the
    /// id it would hand back.
    pub fn do_clone(
        &mut self,
        flags: usize,
        stack: usize,
        ptid: usize,
        tls: usize,
        ctid: usize,
    ) -> (r: AlienResult<isize>)
        requires
            old(self).domain.current_tid + 1 <= isize::MAX,
        ensures
            *final(self) == *old(self),
            !old(self).domain.active ==> r == Err::<isize, AlienError>(AlienError::DomainCrash),
            old(self).domain.active ==> r == Ok::<isize, AlienError>(
                (old(self).domain.current_tid + 1) as isize,
            ),
    {
        if !self.domain.active {
            return Err(AlienError::DomainCrash);
        }
        let _ = (flags, stack, ptid, tls, ctid);
        Ok((self.domain.current_tid + 1) as isize)
    }

    /// Waits for a child; the wait itself is the task domain's work, and
    /// the model reports the pid asked for.
    pub fn do_wait4(
        &mut self,
        pid: isize,
        exit_code_ptr: usize,
        options: u32,
        rusage: usize,
    ) -> (r: AlienResult<isize>)
        ensures
            *final(self) == *old(self),
            !old(self).domain.active ==> r == Err::<isize, AlienError>(AlienError::DomainCrash),
            old(self).domain.active ==> r == Ok::<isize, AlienError>(pid),
    {
        if !self.domain.active {
            return Err(AlienError::DomainCrash);
        }
        let _ = (exit_code_ptr, options, rusage);
        Ok(pid)
    }

    /// Replaces the current task's image; the exec itself is the task
    /// domain's work, and the model reports success.
    pub fn do_execve(
        &mut self,
        filename_ptr: usize,
        argv_ptr: usize,
        envp_ptr: usize,
    ) -> (r: AlienResult<isize>)
        ensures
            *final(self) == *old(self),
            !old(self).domain.active ==> r == Err::<isize, AlienError>(AlienError::DomainCrash),
            old(self).domain.active ==> r == Ok::<isize, AlienError>(0),
    {
        if !self.domain.active {
            return Err(AlienError::DomainCrash);
        }
        let _ = (filename_ptr, argv_ptr, envp_ptr);
        Ok(0)
    }

    /// Yields the current task's time slice.
    pub fn do_yield(&mut self) -> (r: AlienResult<isize>)
        ensures
            *final(self) == *old(self),
            !old(self).domain.active ==> r == Err::<isize, AlienError>(AlienError::DomainCrash),
            old(self).domain.active ==> r == Ok::<isize, AlienError>(0),
    {
        if !self.domain.active {
            return Err(AlienError::DomainCrash);
        }
        Ok(0)
    }
}

/// The proxy guarding the syscall-dispatch domain.
pub struct SysCallDomainProxy {
    pub id: u64,
    pub domain: SysCallDomain,
}

impl SysCallDomainProxy {
    pub fn new(id: u64, domain: SysCallDomain) -> (r: SysCallDomainProxy)
        ensures
            r.id == id,
            r.domain == domain,
    {
        SysCallDomainProxy { id, domain }
    }

    pub fn is_active(&self) -> (r: bool)
        ensures
            r == self.domain.active,
    {
        self.domain.active
    }

    /// Init-style calls pass through without the activation guard.
    pub fn init(&mut self) -> (r: AlienResult<()>)
        ensures
            r == Ok::<(), AlienError>(()),
            *final(self) == *old(self),
    {
        Ok(())
    }

    /// Dispatches one system call into the domain; the dispatch itself is
    /// the domain's work, and the model records the id served.
    pub fn call(&mut self, syscall_id: usize, args: [usize; 6]) -> (r: AlienResult<isize>)
        ensures
            final(self).id == old(self).id,
            !old(self).domain.active ==> r == Err::<isize, AlienError>(AlienError::DomainCrash)
                && *final(self) == *old(self),
            old(self).domain.active ==> r == Ok::<isize, AlienError>(0) && final(self).domain.served@ == old(self).domain.served@.push(syscall_id) && final(self).domain.active,
    {
        if !self.domain.active {
            return Err(AlienError::DomainCrash);
        }
        let _ = args;
        self.domain.served.push(syscall_id);
        Ok(0)
    }
}

/// The proxy guarding a filesystem domain.
pub struct FsDomainProxy {
    pub domain_id: u64,
    pub domain: FsDomain,
}

impl FsDomainProxy {
    pub fn new(domain_id: u64, domain: FsDomain) -> (r: FsDomainProxy)
        ensures
            r.domain_id == domain_id,
            r.domain == domain,
    {
        FsDomainProxy { domain_id, domain }
    }

    pub fn is_active(&self) -> (r: bool)
        ensures
            r == self.domain.active,
    {
        self.domain.active
    }
}

/// The proxy guarding the VFS domain.
pub struct VfsDomainProxy {
    pub domain: VfsDomain,
}

impl VfsDomainProxy {
    pub fn new(_id: u64, domain: VfsDomain) -> (r: VfsDomainProxy)
        ensures
            r.domain == domain,
    {
        VfsDomainProxy { domain }
    }

    pub fn is_active(&self) -> (r: bool)
        ensures
            r == self.domain.active,
    {
        self.domain.active
    }
}

} // verus!
