//! A sleeping lock.
//!
//! A task that finds the lock held queues itself and yields; release
//! hands the lock's turn to the oldest waiter. The scheduling itself is
//! the task layer's; what is verified here is the lock's state machine:
//! who holds it, who waits, and in what order waiters are woken.

use vstd::prelude::*;

verus! {

/// What an acquire attempt did.
#[derive(Clone, Copy, Debug, PartialEq, Eq, Structural)]
pub enum LockAttempt {
    /// The caller holds the lock now.
    Acquired,
    /// The lock was held; the caller joined the wait queue and must
    /// yield, retrying when woken.
    Queued,
}

/// A sleeping lock around a value.
pub struct SleepLock<T> {
    /// The protected value.
    pub data: T,
    /// Whether some task holds the lock.
    pub locked: bool,
    /// Tasks waiting for the lock, oldest first.
    pub queue: Vec<u64>,
}

impl<T> SleepLock<T> {
    /// A released lock around `data`.
    pub fn new(data: T) -> (r: SleepLock<T>)
        ensures
            r.data == data,
            !r.locked,
            r.queue@.len() == 0,
    {
        SleepLock { data, locked: false, queue: Vec::new() }
    }

    /// One acquire attempt by task `tid`: a free lock is taken, a held
    /// one queues the caller, who sleeps until release wakes it.
    pub fn lock(&mut self, tid: u64) -> (r: LockAttempt)
        ensures
            final(self).data == old(self).data,
            final(self).locked,
            !old(self).locked ==> r == LockAttempt::Acquired && final(self).queue@ == old(
                self,
            ).queue@,
            old(self).locked ==> r == LockAttempt::Queued && final(self).queue@ == old(
                self,
            ).queue@.push(tid),
    {
        if self.locked {
            self.queue.push(tid);
            LockAttempt::Queued
        } else {
            self.locked = true;
            LockAttempt::Acquired
        }
    }

    /// Releases the lock and wakes the oldest waiter, if any; the woken
    /// task retries its acquire.
    pub fn release(&mut self) -> (r: Option<u64>)
        requires
            old(self).locked,
        ensures
            final(self).data == old(self).data,
            !final(self).locked,
            old(self).queue@.len() == 0 ==> r is None && final(self).queue@ == old(self).queue@,
            old(self).queue@.len() > 0 ==> r == Some(old(self).queue@[0]) && final(self).queue@
                == old(self).queue@.drop_first(),
    {
        self.locked = false;
        if self.queue.len() > 0 {
            let woken = self.queue.remove(0);
            Some(woken)
        } else {
            None
        }
    }
}

} // verus!
