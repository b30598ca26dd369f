//! The poll syscall's decision logic.
//!
//! The blocking loop itself suspends between rounds and belongs to the
//! task layer; what is verified here is one round: how each descriptor's
//! pending events are matched against what the caller waits for, and
//! what the round decides — deliver the ready count, time out, report an
//! interrupting signal, or suspend and scan again.

use vstd::prelude::*;

verus! {

/// Event bit: data may be read.
pub const POLLIN: u16 = 1;

/// Event bit: data may be written.
pub const POLLOUT: u16 = 4;

/// Event bit reported on a descriptor that is not open.
pub const POLLNVAL: u16 = 32;

/// One descriptor the caller waits on.
#[derive(Clone, Copy, Debug, PartialEq, Eq, Structural)]
pub struct PollFd {
    /// The file descriptor.
    pub fd: usize,
    /// Events the caller waits for.
    pub events: u16,
    /// Events found ready, filled by the scan.
    pub revents: u16,
}

/// Whether descriptor `pfd` finds an event ready against the open-file
/// table: the file exists and one of the waited events is pending.
pub open spec fn fd_ready(pfd: PollFd, files: Seq<Option<u16>>) -> bool {
    &&& 0 <= pfd.fd < files.len()
    &&& files[pfd.fd as int] is Some
    &&& files[pfd.fd as int]->Some_0 & pfd.events != 0
}

/// The number of ready descriptors among the first `n`.
pub open spec fn count_ready(s: Seq<PollFd>, files: Seq<Option<u16>>) -> int
    decreases s.len(),
{
    if s.len() == 0 {
        0
    } else {
        count_ready(s.drop_last(), files) + (if fd_ready(s.last(), files) {
            1int
        } else {
            0int
        })
    }
}

/// One scan over the descriptors: each open file's pending events are
/// matched against the waited events and recorded in `revents`; a
/// descriptor that names no open file is marked invalid. Returns how
/// many descriptors were ready.
pub fn ppoll_scan(fds: &mut Vec<PollFd>, files: &Vec<Option<u16>>) -> (count: usize)
    ensures
        final(fds)@.len() == old(fds)@.len(),
        count == count_ready(old(fds)@, files@),
        forall|i: int|
            0 <= i < old(fds)@.len() ==> #[trigger] final(fds)@[i] == (if 0 <= old(fds)@[i].fd
                < files@.len() && files@[old(fds)@[i].fd as int] is Some {
                PollFd {
                    fd: old(fds)@[i].fd,
                    events: old(fds)@[i].events,
                    revents: files@[old(fds)@[i].fd as int]->Some_0 & old(fds)@[i].events,
                }
            } else {
                PollFd { fd: old(fds)@[i].fd, events: POLLNVAL, revents: old(fds)@[i].revents }
            }),
{
    let mut count: usize = 0;
    let mut i: usize = 0;
    let n = fds.len();
    proof {
        assert(old(fds)@.take(0) =~= Seq::<PollFd>::empty());
    }
    while i < n
        invariant
            n == fds@.len(),
            fds@.len() == old(fds)@.len(),
            i <= n,
            count == count_ready(old(fds)@.take(i as int), files@),
            count <= i,
            forall|k: int| i <= k < n ==> #[trigger] fds@[k] == old(fds)@[k],
            forall|k: int|
                0 <= k < i ==> #[trigger] fds@[k] == (if 0 <= old(fds)@[k].fd < files@.len()
                    && files@[old(fds)@[k].fd as int] is Some {
                    PollFd {
                        fd: old(fds)@[k].fd,
                        events: old(fds)@[k].events,
                        revents: files@[old(fds)@[k].fd as int]->Some_0 & old(fds)@[k].events,
                    }
                } else {
                    PollFd { fd: old(fds)@[k].fd, events: POLLNVAL, revents: old(fds)@[k].revents }
                }),
        decreases n - i,
    {
        proof {
            assert(old(fds)@.take(i + 1).drop_last() =~= old(fds)@.take(i as int));
            assert(old(fds)@.take(i + 1).last() == old(fds)@[i as int]);
        }
        let pfd = fds[i];
        let fd = pfd.fd;
        if fd < files.len() {
            match files[fd] {
                Some(pending) => {
                    let rev = pending & pfd.events;
                    fds.set(i, PollFd { fd, events: pfd.events, revents: rev });
                    if rev != 0 {
                        count = count + 1;
                    }
                },
                None => {
                    fds.set(i, PollFd { fd, events: POLLNVAL, revents: pfd.revents });
                },
            }
        } else {
            fds.set(i, PollFd { fd, events: POLLNVAL, revents: pfd.revents });
        }
        i = i + 1;
    }
    proof {
        assert(old(fds)@.take(n as int) =~= old(fds)@);
    }
    count
}

/// What one round of the poll loop decides.
#[derive(Clone, Copy, Debug, PartialEq, Eq, Structural)]
pub enum PpollDecision {
    /// Events were found: deliver the ready count.
    Ready(usize),
    /// The deadline passed with nothing ready: deliver zero.
    TimedOut,
    /// A signal interrupts the wait.
    Interrupted,
    /// Nothing ready and no reason to stop: suspend and scan again.
    Suspend,
}

/// Decides what one round does, in the loop's order: ready descriptors
/// are delivered first; an expired deadline delivers zero; a pending
/// signal interrupts; otherwise the task suspends and scans again.
pub fn ppoll_decide(count: usize, deadline: Option<u64>, now: u64, have_signal: bool) -> (r:
    PpollDecision)
    ensures
        count > 0 ==> r == PpollDecision::Ready(count),
        count == 0 && (deadline matches Some(d) && d <= now) ==> r == PpollDecision::TimedOut,
        count == 0 && (deadline is None || deadline->Some_0 > now) && have_signal ==> r
            == PpollDecision::Interrupted,
        count == 0 && (deadline is None || deadline->Some_0 > now) && !have_signal ==> r
            == PpollDecision::Suspend,
{
    if count > 0 {
        return PpollDecision::Ready(count);
    }
    match deadline {
        Some(d) => {
            if d <= now {
                return PpollDecision::TimedOut;
            }
        },
        None => {},
    }
    if have_signal {
        PpollDecision::Interrupted
    } else {
        PpollDecision::Suspend
    }
}

} // verus!
