//! Shared heap of cross-domain references.
//!
//! Values passed across the domain boundary are allocated here rather than
//! in any domain-local allocator, so that they outlive the domain that
//! produced them. Each allocation records the domain currently considered
//! its owner; ownership transfers atomically at every boundary crossing.
//! The heap is process-wide and services all domains alike.

use crate::error::{AlienError, AlienResult};
use vstd::prelude::*;

verus! {

/// One allocation of the shared heap.
pub struct CdrSlot {
    /// Domain currently considered the owner.
    pub owner: u64,
    /// False once the last reference was dropped and the storage returned.
    pub live: bool,
    /// The bytes of the value.
    pub data: Vec<u8>,
}

/// The result of one ownership transfer at the specification level.
pub open spec fn spec_transfer(s: Seq<CdrSlot>, h: int, o: u64) -> Seq<CdrSlot> {
    s.update(h, CdrSlot { owner: o, live: s[h].live, data: s[h].data })
}

/// The heap contents after a sequence of transfers `(handle, new_owner)`,
/// applied in order.
pub open spec fn apply_transfers(s: Seq<CdrSlot>, xs: Seq<(int, u64)>) -> Seq<CdrSlot>
    decreases xs.len(),
{
    if xs.len() == 0 {
        s
    } else {
        spec_transfer(apply_transfers(s, xs.drop_last()), xs.last().0, xs.last().1)
    }
}

/// The owner of handle `h` after the transfers `xs`: the domain named by
/// the last transfer of `h`, or `orig` if none names it.
pub open spec fn owner_after(orig: u64, xs: Seq<(int, u64)>, h: int) -> u64
    decreases xs.len(),
{
    if xs.len() == 0 {
        orig
    } else if xs.last().0 == h {
        xs.last().1
    } else {
        owner_after(orig, xs.drop_last(), h)
    }
}

/// Allocations survive arbitrary ownership transfers: after any sequence
/// of transfers over valid handles, every allocation is still live with
/// its bytes intact, and its owner is exactly the domain named by the last
/// transfer that touched it (or the original owner if none did).
pub proof fn lemma_transfers_preserve(s: Seq<CdrSlot>, xs: Seq<(int, u64)>, h: int)
    requires
        0 <= h < s.len(),
        forall|k: int| 0 <= k < xs.len() ==> 0 <= #[trigger] xs[k].0 < s.len(),
    ensures
        apply_transfers(s, xs).len() == s.len(),
        apply_transfers(s, xs)[h].live == s[h].live,
        apply_transfers(s, xs)[h].data == s[h].data,
        apply_transfers(s, xs)[h].owner == owner_after(s[h].owner, xs, h),
    decreases xs.len(),
{
    if xs.len() > 0 {
        lemma_transfers_preserve(s, xs.drop_last(), h);
        let prev = apply_transfers(s, xs.drop_last());
        lemma_transfers_preserve(s, xs.drop_last(), xs.last().0);
    }
}

/// The process-wide shared heap.
pub struct SharedHeap {
    /// All allocations ever made, live or not, indexed by handle.
    pub slots: Vec<CdrSlot>,
    /// Bound on the number of allocations the heap can serve.
    pub capacity: usize,
}

impl SharedHeap {
    pub open spec fn wf(self) -> bool {
        self.slots@.len() <= self.capacity
    }

    /// A fresh heap able to serve `capacity` allocations. The heap is
    /// initialized once at boot and thereafter services all domains.
    pub fn new(capacity: usize) -> (r: SharedHeap)
        ensures
            r.wf(),
            r.slots@.len() == 0,
            r.capacity == capacity,
    {
        SharedHeap { slots: Vec::new(), capacity }
    }

    /// Allocates storage for one value and records `domain_id` as owner.
    /// Fails with a typed error, never a panic, when the heap is full.
    pub fn alloc_shared(&mut self, domain_id: u64, value: Vec<u8>) -> (r: AlienResult<usize>)
        requires
            old(self).wf(),
        ensures
            final(self).wf(),
            final(self).capacity == old(self).capacity,
            old(self).slots@.len() < old(self).capacity ==> {
                &&& r == Ok::<usize, AlienError>(old(self).slots@.len() as usize)
                &&& final(self).slots@.len() == old(self).slots@.len() + 1
                &&& final(self).slots@.drop_last() == old(self).slots@
                &&& final(self).slots@.last().owner == domain_id
                &&& final(self).slots@.last().live
                &&& final(self).slots@.last().data == value
            },
            old(self).slots@.len() >= old(self).capacity ==> r == Err::<usize, AlienError>(
                AlienError::Other,
            ) && final(self).slots@ == old(self).slots@,
    {
        if self.slots.len() < self.capacity {
            let h = self.slots.len();
            self.slots.push(CdrSlot { owner: domain_id, live: true, data: value });
            proof {
                assert(self.slots@.drop_last() =~= old(self).slots@);
            }
            Ok(h)
        } else {
            Err(AlienError::Other)
        }
    }

    /// Allocates a fixed-length homogeneous buffer filled with `fill`,
    /// owned by `domain_id`. The buffer length travels with the reference.
    pub fn alloc_shared_vec(&mut self, domain_id: u64, n: usize, fill: u8) -> (r: AlienResult<
        usize,
    >)
        requires
            old(self).wf(),
        ensures
            final(self).wf(),
            final(self).capacity == old(self).capacity,
            old(self).slots@.len() < old(self).capacity ==> {
                &&& r == Ok::<usize, AlienError>(old(self).slots@.len() as usize)
                &&& final(self).slots@.len() == old(self).slots@.len() + 1
                &&& final(self).slots@.drop_last() == old(self).slots@
                &&& final(self).slots@.last().owner == domain_id
                &&& final(self).slots@.last().live
                &&& final(self).slots@.last().data@ == Seq::new(n as nat, |i: int| fill)
            },
            old(self).slots@.len() >= old(self).capacity ==> r == Err::<usize, AlienError>(
                AlienError::Other,
            ) && final(self).slots@ == old(self).slots@,
    {
        let mut buf: Vec<u8> = Vec::new();
        let mut i: usize = 0;
        while i < n
            invariant
                i <= n,
                buf@ == Seq::new(i as nat, |k: int| fill),
            decreases n - i,
        {
            buf.push(fill);
            i = i + 1;
            proof {
                assert(buf@ =~= Seq::new(i as nat, |k: int| fill));
            }
        }
        self.alloc_shared(domain_id, buf)
    }

    /// Reassigns ownership of `h` to `new_owner`, atomically with a
    /// boundary crossing. Only live, valid handles can be transferred.
    pub fn transfer(&mut self, h: usize, new_owner: u64) -> (r: AlienResult<()>)
        requires
            old(self).wf(),
        ensures
            final(self).wf(),
            final(self).capacity == old(self).capacity,
            h < old(self).slots@.len() && old(self).slots@[h as int].live ==> {
                &&& r == Ok::<(), AlienError>(())
                &&& final(self).slots@ == spec_transfer(old(self).slots@, h as int, new_owner)
                &&& final(self).slots@[h as int].owner == new_owner
                &&& final(self).slots@[h as int].live
                &&& final(self).slots@[h as int].data == old(self).slots@[h as int].data
            },
            !(h < old(self).slots@.len() && old(self).slots@[h as int].live) ==> r == Err::<
                (),
                AlienError,
            >(AlienError::InvalidArg) && final(self).slots@ == old(self).slots@,
    {
        if h < self.slots.len() {
            if self.slots[h].live {
                let slot = &mut self.slots[h];
                slot.owner = new_owner;
                proof {
                    assert(self.slots@ =~= spec_transfer(old(self).slots@, h as int, new_owner));
                }
                return Ok(());
            }
            return Err(AlienError::InvalidArg);
        }
        Err(AlienError::InvalidArg)
    }

    /// The owner currently recorded for handle `h`.
    pub fn owner_of(&self, h: usize) -> (r: AlienResult<u64>)
        ensures
            h < self.slots@.len() && self.slots@[h as int].live ==> r == Ok::<u64, AlienError>(
                self.slots@[h as int].owner,
            ),
            !(h < self.slots@.len() && self.slots@[h as int].live) ==> r == Err::<u64, AlienError>(
                AlienError::InvalidArg,
            ),
    {
        if h < self.slots.len() {
            if self.slots[h].live {
                return Ok(self.slots[h].owner);
            }
            return Err(AlienError::InvalidArg);
        }
        Err(AlienError::InvalidArg)
    }

    /// Reads the bytes of a live allocation.
    pub fn read_value(&self, h: usize) -> (r: AlienResult<&Vec<u8>>)
        ensures
            h < self.slots@.len() && self.slots@[h as int].live ==> r is Ok && r->Ok_0@
                == self.slots@[h as int].data@,
            !(h < self.slots@.len() && self.slots@[h as int].live) ==> r == Err::<
                &Vec<u8>,
                AlienError,
            >(AlienError::InvalidArg),
    {
        if h < self.slots.len() {
            if self.slots[h].live {
                return Ok(&self.slots[h].data);
            }
            return Err(AlienError::InvalidArg);
        }
        Err(AlienError::InvalidArg)
    }

    /// Drops the last reference to `h`: the storage returns to the heap
    /// and the handle stops being live.
    pub fn drop_last_ref(&mut self, h: usize) -> (r: AlienResult<()>)
        requires
            old(self).wf(),
        ensures
            final(self).wf(),
            final(self).capacity == old(self).capacity,
            h < old(self).slots@.len() && old(self).slots@[h as int].live ==> {
                &&& r == Ok::<(), AlienError>(())
                &&& final(self).slots@.len() == old(self).slots@.len()
                &&& !final(self).slots@[h as int].live
                &&& forall|k: int|
                    0 <= k < old(self).slots@.len() && k != h ==> final(self).slots@[k] == old(
                        self,
                    ).slots@[k]
            },
            !(h < old(self).slots@.len() && old(self).slots@[h as int].live) ==> r == Err::<
                (),
                AlienError,
            >(AlienError::InvalidArg) && final(self).slots@ == old(self).slots@,
    {
        if h < self.slots.len() {
            if self.slots[h].live {
                let slot = &mut self.slots[h];
                slot.live = false;
                return Ok(());
            }
            return Err(AlienError::InvalidArg);
        }
        Err(AlienError::InvalidArg)
    }
}

} // verus!
