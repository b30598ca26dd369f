//! The assembled domain system: the capability surface, one hart, and
//! the registered proxies of the block family, wired the way boot wires
//! them. Domain ids are assigned monotonically and never reused. The
//! system invariant carries the accounting laws the components promise
//! one another: every active domain has a ledger entry with its three
//! shims from activation until crash teardown, the continuation stack is
//! empty between calls, and the frames recorded in the ledger plus the
//! frames free in the allocator never exceed the machine.

use crate::domains::{BlkDomain, CacheBlkDomain, DeviceInfo, DiskState, ShadowBlockDomain,
    BLOCK_SIZE};
use crate::error::{AlienError, AlienResult};
use crate::ledger::{ledger_total, lemma_spans_total_nonneg, spans_total};
use crate::libsyscall::DomainIdent;
use crate::loader::{image_valid, DomainLoader};
use crate::mem::FrameAllocator;
use crate::proxy::{restart_post, BlkDomainProxy, Hart};
use crate::proxy_dev::{CacheBlkDomainProxy, ShadowBlockDomainProxy};
use crate::syscall::{frames_conserved, DeviceSpaceRecord, DomainSyscall, KernelConstants,
    registry_lookup};
use vstd::prelude::*;

verus! {

/// The domain system as boot assembles it.
pub struct DomainSystem {
    pub sys: DomainSyscall,
    pub hart: Hart,
    pub blk: Option<BlkDomainProxy>,
    pub shadow: Option<ShadowBlockDomainProxy>,
    pub cache: Option<CacheBlkDomainProxy>,
    /// The next domain id to assign; ids are never reused.
    pub next_domain_id: u64,
}

/// A domain id has a full ledger entry: present, with all three shim
/// objects recorded.
pub open spec fn has_full_entry(sys: DomainSyscall, d: u64) -> bool {
    &&& sys.ledger.spec_contains(d)
    &&& sys.ledger.resources_of(d).syscall_shim is Some
    &&& sys.ledger.resources_of(d).heap_shim is Some
    &&& sys.ledger.resources_of(d).task_shim is Some
}

impl DomainSystem {
    pub open spec fn wf(self) -> bool {
        &&& self.sys.wf()
        &&& self.hart.wf()
        &&& self.hart.stack.frames@.len() == 0
        &&& ledger_total(self.sys.ledger.entries@) + self.sys.allocator.free_frames <= usize::MAX
        &&& self.blk matches Some(b) ==> {
            &&& b.wf()
            &&& b.device_info is Some
            &&& b.domain.active ==> has_full_entry(self.sys, b.domain_id)
        }
        &&& self.shadow matches Some(s) ==> (s.domain.active ==> has_full_entry(
            self.sys,
            s.domain_id,
        ))
        &&& self.cache matches Some(c) ==> (c.domain.active ==> has_full_entry(
            self.sys,
            c.domain_id,
        ))
        &&& self.blk matches Some(b) ==> b.domain_id < self.next_domain_id
        &&& self.shadow matches Some(s) ==> s.domain_id < self.next_domain_id
        &&& self.cache matches Some(c) ==> c.domain_id < self.next_domain_id
        &&& self.blk is Some && self.shadow is Some ==> self.blk->Some_0.domain_id
            != self.shadow->Some_0.domain_id
        &&& self.blk is Some && self.cache is Some ==> self.blk->Some_0.domain_id
            != self.cache->Some_0.domain_id
        &&& self.shadow is Some && self.cache is Some ==> self.shadow->Some_0.domain_id
            != self.cache->Some_0.domain_id
    }

    /// A fresh system over the platform configuration, with no domains
    /// registered yet.
    pub fn new(
        constants: KernelConstants,
        device_space: Vec<DeviceSpaceRecord>,
        allocator: FrameAllocator,
        dtb: Vec<u8>,
    ) -> (r: DomainSystem)
        ensures
            r.wf(),
            r.blk is None,
            r.shadow is None,
            r.cache is None,
            r.sys.blk_crash,
            r.sys.allocator == allocator,
            r.next_domain_id == 0,
    {
        let sys = DomainSyscall::new(constants, device_space, allocator, dtb);
        let hart = Hart::new();
        proof {
            assert(ledger_total(sys.ledger.entries@) == 0);
        }
        DomainSystem { sys, hart, blk: None, shadow: None, cache: None, next_domain_id: 0 }
    }

    /// Assigns the next domain id and registers the three shim objects a
    /// fresh domain is handed, giving it a full ledger entry.
    fn activate_domain(&mut self, name: DomainIdent) -> (id: u64)
        requires
            old(self).wf(),
            old(self).next_domain_id < u64::MAX,
            old(self).sys.next_shim_addr + 3 <= usize::MAX,
        ensures
            id == old(self).next_domain_id,
            final(self).next_domain_id == old(self).next_domain_id + 1,
            final(self).sys.wf(),
            has_full_entry(final(self).sys, id),
            forall|e: u64|
                final(self).sys.ledger.spec_contains(e) <==> (old(self).sys.ledger.spec_contains(e)
                    || e == id),
            forall|e: u64|
                e != id && old(self).sys.ledger.spec_contains(e) ==> final(self).sys.ledger.resources_of(e) == old(self).sys.ledger.resources_of(e) && final(self).sys.ledger.pages_of(e) == old(self).sys.ledger.pages_of(e),
            final(self).sys.registry@ == old(self).sys.registry@.push((name, id)),
            final(self).sys.allocator == old(self).sys.allocator,
            final(self).sys.blk_crash == old(self).sys.blk_crash,
            frames_conserved(old(self).sys, final(self).sys),
            final(self).hart == old(self).hart,
            final(self).blk == old(self).blk,
            final(self).shadow == old(self).shadow,
            final(self).cache == old(self).cache,
    {
        let id = self.next_domain_id;
        self.next_domain_id = self.next_domain_id + 1;
        let ghost pre = self.sys;
        let a1 = self.sys.alloc_shim_addr();
        crate::syscall::register_domain_syscall_resource(&mut self.sys, id, a1);
        let ghost s1 = self.sys.ledger;
        let a2 = self.sys.alloc_shim_addr();
        crate::syscall::register_domain_heap_resource(&mut self.sys, id, a2);
        let ghost s2 = self.sys.ledger;
        let a3 = self.sys.alloc_shim_addr();
        crate::syscall::register_domain_taskshim_resource(&mut self.sys, id, a3);
        self.sys.register_domain(name, id);
        proof {
            let post = self.sys.ledger;
            assert forall|k: int|
                0 <= k < post.entries@.len() && post.entries@[k].0 != id implies #[trigger] post.entries@[k]
                == pre.ledger.entries@[k] by {
                assert(post.entries@[k] == s2.entries@[k]);
                assert(s2.entries@[k] == s1.entries@[k]);
                assert(s1.entries@[k] == pre.ledger.entries@[k]);
            }
            assert forall|k: int|
                pre.ledger.entries@.len() <= k < post.entries@.len() implies post.entries@[k].0
                == id by {
                assert(k == pre.ledger.entries@.len());
                assert(s1.spec_contains(id));
                assert(s1.idx_of(id) == k);
                assert(0 <= s1.idx_of(id) < s1.entries@.len() && s1.entries@[s1.idx_of(id)].0
                    == id);
                if post.entries@[k].0 != id {
                    assert(post.entries@[k] == s2.entries@[k]);
                    assert(s2.entries@[k] == s1.entries@[k]);
                }
            }
            assert forall|e: u64|
                e != id && pre.ledger.spec_contains(e) implies self.sys.ledger.resources_of(e)
                == pre.ledger.resources_of(e) && self.sys.ledger.pages_of(e)
                == pre.ledger.pages_of(e) by {
                crate::ledger::lemma_pages_of_preserved(pre.ledger, self.sys.ledger, id, e);
            }
        }
        id
    }

    /// Loads a block-device domain from `image`, activates it, registers
    /// it for peer lookup under the block name, and binds it to `info`.
    /// A malformed image is rejected and registers nothing.
    pub fn register_blk_domain(&mut self, image: Vec<u8>, disk: DiskState, info: DeviceInfo) -> (r:
        AlienResult<u64>)
        requires
            old(self).wf(),
            old(self).blk is None,
            disk.wf(),
            old(self).next_domain_id < u64::MAX,
            old(self).sys.next_shim_addr + 3 <= usize::MAX,
        ensures
            final(self).wf(),
            !image_valid(image@) ==> r == Err::<u64, AlienError>(AlienError::InvalidArg) && final(self).blk is None && *final(self) == *old(self),
            image_valid(image@) ==> {
                &&& r == Ok::<u64, AlienError>(old(self).next_domain_id)
                &&& final(self).blk matches Some(b) && b.domain_id == old(self).next_domain_id
                    && b.domain.active && !b.domain.crash_armed && b.domain.init_log@ == seq![info]
                    && b.device_info == Some(info) && b.disk.blocks@ == disk.blocks@
                &&& has_full_entry(final(self).sys, old(self).next_domain_id)
                &&& registry_lookup(final(self).sys.registry@, DomainIdent::Blk) is Some
                &&& final(self).sys.blk_crash == old(self).sys.blk_crash
                &&& final(self).sys.allocator == old(self).sys.allocator
                &&& final(self).shadow == old(self).shadow
                &&& final(self).cache == old(self).cache
            },
    {
        let mut loader = DomainLoader::new(image);
        let loaded = loader.load();
        if loaded.is_err() {
            return Err(AlienError::InvalidArg);
        }
        let id = self.activate_domain(DomainIdent::Blk);
        let domain = BlkDomain::fresh(id);
        let mut proxy = BlkDomainProxy::new(id, domain, loader, disk);
        let inited = proxy.init(info);
        proof {
            assert(inited is Ok);
            assert(proxy.domain.init_log@ =~= seq![info]);
            crate::syscall::lemma_registry_lookup_push(
                old(self).sys.registry@,
                DomainIdent::Blk,
                id,
            );
        }
        self.blk = Some(proxy);
        Ok(id)
    }

    /// Loads the shadow block domain, activating it and registering it
    /// under the shadow-block name; its init names the block domain as
    /// its backing.
    pub fn register_shadow_domain(&mut self) -> (r: AlienResult<u64>)
        requires
            old(self).wf(),
            old(self).shadow is None,
            old(self).next_domain_id < u64::MAX,
            old(self).sys.next_shim_addr + 3 <= usize::MAX,
        ensures
            final(self).wf(),
            r == Ok::<u64, AlienError>(old(self).next_domain_id),
            final(self).shadow matches Some(s) && s.domain_id == old(self).next_domain_id
                && s.domain.active && s.domain.backing == Some(DomainIdent::Blk),
            final(self).blk == old(self).blk,
            final(self).cache == old(self).cache,
            final(self).sys.blk_crash == old(self).sys.blk_crash,
            final(self).sys.allocator == old(self).sys.allocator,
    {
        let id = self.activate_domain(DomainIdent::ShadowBlk);
        let domain = ShadowBlockDomain::fresh();
        let mut proxy = ShadowBlockDomainProxy::new(id, domain);
        let inited = proxy.init(DomainIdent::Blk);
        proof {
            assert(inited is Ok);
        }
        self.shadow = Some(proxy);
        Ok(id)
    }

    /// Loads the cache block domain, activating it and registering it
    /// under the cache-block name; its init names the block domain as its
    /// backing, resolved by peer lookup at each call.
    pub fn register_cache_domain(&mut self) -> (r: AlienResult<u64>)
        requires
            old(self).wf(),
            old(self).cache is None,
            old(self).next_domain_id < u64::MAX,
            old(self).sys.next_shim_addr + 3 <= usize::MAX,
        ensures
            final(self).wf(),
            r == Ok::<u64, AlienError>(old(self).next_domain_id),
            final(self).cache matches Some(c) && c.domain_id == old(self).next_domain_id
                && c.domain.active && c.domain.backing == Some(DomainIdent::Blk),
            final(self).blk == old(self).blk,
            final(self).shadow == old(self).shadow,
            final(self).sys.blk_crash == old(self).sys.blk_crash,
            final(self).sys.allocator == old(self).sys.allocator,
    {
        let id = self.activate_domain(DomainIdent::CacheBlk);
        let domain = CacheBlkDomain::fresh();
        let mut proxy = CacheBlkDomainProxy::new(id, domain);
        let inited = proxy.init(DomainIdent::Blk);
        proof {
            assert(inited is Ok);
        }
        self.cache = Some(proxy);
        Ok(id)
    }

    /// Whether the block domain reads active: liveness as the proxy
    /// consults it.
    pub fn blk_is_active(&self) -> (r: bool)
        requires
            self.blk is Some,
        ensures
            r == self.blk->Some_0.domain.active,
    {
        match &self.blk {
            Some(b) => b.is_active(),
            None => {
                // Ruled out by this function's contract.
                proof {
                    assert(false);
                }
                false
            },
        }
    }

    /// Test-only hook: arms the block driver so its next read panics.
    pub fn arm_blk_crash(&mut self)
        requires
            old(self).wf(),
            old(self).blk is Some,
        ensures
            final(self).wf(),
            final(self).blk matches Some(b) && b.domain.crash_armed && b.domain.active == old(
                self,
            ).blk->Some_0.domain.active && b.disk.blocks@ == old(self).blk->Some_0.disk.blocks@
                && b.domain_id == old(self).blk->Some_0.domain_id && b.device_info == old(
                self,
            ).blk->Some_0.device_info,
            final(self).sys == old(self).sys,
            final(self).hart == old(self).hart,
            final(self).shadow == old(self).shadow,
            final(self).cache == old(self).cache,
            final(self).next_domain_id == old(self).next_domain_id,
    {
        match &mut self.blk {
            Some(b) => b.domain.arm_crash(),
            None => {
                // Ruled out by this function's contract.
                proof {
                    assert(false);
                }
            },
        }
    }

    /// Test-only hook: the one-shot flag the unwind path lowers.
    pub fn blk_crash_trick(&self) -> (r: bool)
        ensures
            r == self.sys.blk_crash,
    {
        self.sys.blk_crash_trick()
    }

    /// Writes one block through the block proxy.
    pub fn blk_write(&mut self, block: u32, data: &Vec<u8>) -> (r: AlienResult<usize>)
        requires
            old(self).wf(),
            old(self).blk is Some,
            data@.len() == BLOCK_SIZE,
        ensures
            final(self).wf(),
            final(self).blk is Some,
            final(self).sys == old(self).sys,
            final(self).hart == old(self).hart,
            final(self).shadow == old(self).shadow,
            final(self).cache == old(self).cache,
            ({
                let b0 = old(self).blk->Some_0;
                let b1 = final(self).blk->Some_0;
                &&& b1.domain == b0.domain
                &&& b1.domain_id == b0.domain_id
                &&& b1.device_info == b0.device_info
                &&& !b0.domain.active ==> r == Err::<usize, AlienError>(AlienError::DomainCrash)
                    && b1 == b0
                &&& b0.domain.active && (block as int) < b0.disk.blocks@.len() ==> {
                    &&& r == Ok::<usize, AlienError>(BLOCK_SIZE)
                    &&& b1.disk.blocks@[block as int]@ == data@
                    &&& forall|k: int|
                        0 <= k < b0.disk.blocks@.len() && k != block as int
                            ==> #[trigger] b1.disk.blocks@[k] == b0.disk.blocks@[k]
                }
                &&& b0.domain.active && (block as int) >= b0.disk.blocks@.len() ==> r == Err::<
                    usize,
                    AlienError,
                >(AlienError::InvalidArg) && b1 == b0
            }),
    {
        match &mut self.blk {
            Some(b) => b.write_block(block, data),
            None => {
                // Ruled out by this function's contract.
                proof {
                    assert(false);
                }
                Err(AlienError::NotFound)
            },
        }
    }

    /// Reads one block through the block proxy and its continuation
    /// machinery. A call on an inactive domain returns the crash error
    /// without allocating or touching any state; a panic mid-call marks
    /// the domain inactive, empties its ledger entry, and surfaces the
    /// crash error; a healthy call returns the block's bytes.
    pub fn blk_read(&mut self, block: u32, data: Vec<u8>) -> (r: AlienResult<Vec<u8>>)
        requires
            old(self).wf(),
            old(self).blk is Some,
            data@.len() == BLOCK_SIZE,
        ensures
            final(self).wf(),
            final(self).blk is Some,
            final(self).shadow == old(self).shadow,
            final(self).cache == old(self).cache,
            final(self).hart.stack.frames@ == old(self).hart.stack.frames@,
            ({
                let b0 = old(self).blk->Some_0;
                let b1 = final(self).blk->Some_0;
                &&& b1.disk.blocks@ == b0.disk.blocks@
                &&& b1.device_info == b0.device_info
                &&& b1.domain_id == b0.domain_id
                &&& !b0.domain.active ==> r == Err::<Vec<u8>, AlienError>(AlienError::DomainCrash)
                    && b1 == b0 && final(self).sys == old(self).sys
                &&& b0.domain.active && b0.domain.crash_armed ==> {
                    &&& r == Err::<Vec<u8>, AlienError>(AlienError::DomainCrash)
                    &&& !b1.domain.active
                    &&& !final(self).sys.ledger.spec_contains(b0.domain_id)
                    &&& final(self).sys.allocator.free_frames == old(
                        self,
                    ).sys.allocator.free_frames + spans_total(
                        old(self).sys.ledger.pages_of(b0.domain_id),
                    )
                    &&& !final(self).sys.blk_crash
                }
                &&& b0.domain.active && !b0.domain.crash_armed ==> {
                    &&& b1.domain == b0.domain
                    &&& final(self).sys == old(self).sys
                    &&& (block as int) < b0.disk.blocks@.len() ==> r is Ok && r->Ok_0@
                        == b0.disk.blocks@[block as int]@
                    &&& (block as int) >= b0.disk.blocks@.len() ==> r == Err::<Vec<u8>, AlienError>(
                        AlienError::InvalidArg,
                    )
                }
            }),
    {
        proof {
            let b = old(self).blk->Some_0;
            if b.domain.active && b.domain.crash_armed {
                assert(self.sys.ledger.spec_contains(b.domain_id));
                crate::ledger::lemma_pages_of_le_total(self.sys.ledger, b.domain_id);
            }
        }
        let r = match &mut self.blk {
            Some(b) => b.read_block(&mut self.sys, &mut self.hart, block, data),
            None => {
                // Ruled out by this function's contract.
                proof {
                    assert(false);
                }
                Err(AlienError::NotFound)
            },
        };
        r
    }

    /// Hot-swaps the block domain for a freshly loaded instance: reloads
    /// the image, replays the remembered init argument, and swaps the
    /// slot. The new instance reads active and holds a fresh full ledger
    /// entry.
    pub fn restart_blk(&mut self) -> (r: bool)
        requires
            old(self).wf(),
            old(self).blk is Some,
            old(self).sys.next_shim_addr + 3 <= usize::MAX,
        ensures
            final(self).wf(),
            r == true,
            final(self).blk is Some,
            restart_post(old(self).blk->Some_0, final(self).blk->Some_0),
            final(self).blk->Some_0.domain.active,
            has_full_entry(final(self).sys, old(self).blk->Some_0.domain_id),
            final(self).sys.blk_crash == old(self).sys.blk_crash,
            final(self).sys.allocator == old(self).sys.allocator,
            final(self).sys.registry@ == old(self).sys.registry@,
            final(self).shadow == old(self).shadow,
            final(self).cache == old(self).cache,
            final(self).hart == old(self).hart,
    {
        let ghost pre_sys = self.sys;
        let r = match &mut self.blk {
            Some(b) => b.restart(&mut self.sys),
            None => {
                // Ruled out by this function's contract.
                proof {
                    assert(false);
                }
                false
            },
        };
        proof {
            let id = old(self).blk->Some_0.domain_id;
            assert forall|e: u64|
                e != id && pre_sys.ledger.spec_contains(e) implies self.sys.ledger.resources_of(e)
                == pre_sys.ledger.resources_of(e) by {
                crate::ledger::lemma_pages_of_preserved(pre_sys.ledger, self.sys.ledger, id, e);
            }
        }
        r
    }

    /// Reads bytes through the cache block proxy: the call is guarded by
    /// the cache domain's flag, the backing block domain is resolved by
    /// peer lookup, and the delegated read carries the continuation
    /// machinery, so a crash of the block domain surfaces here as the
    /// typed crash error.
    pub fn cache_read(&mut self, offset: u64, len: usize) -> (r: AlienResult<Vec<u8>>)
        requires
            old(self).wf(),
            old(self).cache is Some,
            old(self).blk is Some,
            (offset as int % (BLOCK_SIZE as int)) + len <= BLOCK_SIZE,
            offset / (BLOCK_SIZE as u64) <= u32::MAX,
        ensures
            final(self).wf(),
            final(self).cache == old(self).cache,
            final(self).blk is Some,
            final(self).hart.stack.frames@ == old(self).hart.stack.frames@,
            ({
                let c = old(self).cache->Some_0;
                let b0 = old(self).blk->Some_0;
                let b1 = final(self).blk->Some_0;
                let block = offset as int / (BLOCK_SIZE as int);
                &&& b1.disk.blocks@ == b0.disk.blocks@
                &&& !c.domain.active ==> r == Err::<Vec<u8>, AlienError>(AlienError::DomainCrash)
                    && final(self).sys == old(self).sys && b1 == b0
                &&& c.domain.active && c.domain.backing is None ==> r == Err::<Vec<u8>, AlienError>(
                    AlienError::NotFound,
                ) && final(self).sys == old(self).sys && b1 == b0
                &&& c.domain.active && c.domain.backing is Some && registry_lookup(
                    old(self).sys.registry@,
                    c.domain.backing->Some_0,
                ) != Some(b0.domain_id) ==> r == Err::<Vec<u8>, AlienError>(AlienError::NotFound)
                    && final(self).sys == old(self).sys && b1 == b0
                &&& c.domain.active && c.domain.backing is Some && registry_lookup(
                    old(self).sys.registry@,
                    c.domain.backing->Some_0,
                ) == Some(b0.domain_id) ==> {
                    &&& !b0.domain.active ==> r == Err::<Vec<u8>, AlienError>(
                        AlienError::DomainCrash,
                    ) && final(self).sys == old(self).sys && b1 == b0
                    &&& b0.domain.active && b0.domain.crash_armed ==> {
                        &&& r == Err::<Vec<u8>, AlienError>(AlienError::DomainCrash)
                        &&& !b1.domain.active
                        &&& !final(self).sys.ledger.spec_contains(b0.domain_id)
                        &&& !final(self).sys.blk_crash
                    }
                    &&& b0.domain.active && !b0.domain.crash_armed ==> {
                        &&& b1.domain == b0.domain
                        &&& final(self).sys == old(self).sys
                        &&& block < b0.disk.blocks@.len() ==> r is Ok && r->Ok_0@
                            == b0.disk.blocks@[block]@.subrange(
                            offset as int % (BLOCK_SIZE as int),
                            offset as int % (BLOCK_SIZE as int) + len,
                        )
                        &&& block >= b0.disk.blocks@.len() ==> r == Err::<Vec<u8>, AlienError>(
                            AlienError::InvalidArg,
                        )
                    }
                }
            }),
    {
        let backing = match &self.cache {
            Some(c) => {
                if !c.is_active() {
                    return Err(AlienError::DomainCrash);
                }
                match c.domain.backing {
                    Some(name) => name,
                    None => {
                        return Err(AlienError::NotFound);
                    },
                }
            },
            None => {
                // Ruled out by this function's contract.
                proof {
                    assert(false);
                }
                return Err(AlienError::NotFound);
            },
        };
        let target = self.sys.query_domain(backing);
        proof {
            let b = old(self).blk->Some_0;
            if b.domain.active && b.domain.crash_armed {
                assert(self.sys.ledger.spec_contains(b.domain_id));
                crate::ledger::lemma_pages_of_le_total(self.sys.ledger, b.domain_id);
            }
        }
        match (&mut self.cache, &mut self.blk) {
            (Some(c), Some(b)) => {
                match target {
                    Some(id) => {
                        if id != b.domain_id {
                            return Err(AlienError::NotFound);
                        }
                        c.read(b, &mut self.sys, &mut self.hart, offset, len)
                    },
                    None => Err(AlienError::NotFound),
                }
            },
            _ => {
                // Ruled out by this function's contract.
                proof {
                    assert(false);
                }
                Err(AlienError::NotFound)
            },
        }
    }

    /// Writes one block through the shadow block proxy, which composes
    /// atop the block proxy.
    pub fn shadow_write(&mut self, block: u32, data: &Vec<u8>) -> (r: AlienResult<usize>)
        requires
            old(self).wf(),
            old(self).shadow is Some,
            old(self).blk is Some,
            data@.len() == BLOCK_SIZE,
        ensures
            final(self).wf(),
            final(self).shadow == old(self).shadow,
            final(self).blk is Some,
            final(self).sys == old(self).sys,
            final(self).hart == old(self).hart,
            ({
                let s = old(self).shadow->Some_0;
                let b0 = old(self).blk->Some_0;
                let b1 = final(self).blk->Some_0;
                &&& b1.domain == b0.domain
                &&& !s.domain.active ==> r == Err::<usize, AlienError>(AlienError::DomainCrash)
                    && b1 == b0
                &&& s.domain.active && !b0.domain.active ==> r == Err::<usize, AlienError>(
                    AlienError::DomainCrash,
                ) && b1 == b0
                &&& s.domain.active && b0.domain.active && (block as int)
                    < b0.disk.blocks@.len() ==> {
                    &&& r == Ok::<usize, AlienError>(BLOCK_SIZE)
                    &&& b1.disk.blocks@[block as int]@ == data@
                    &&& forall|k: int|
                        0 <= k < b0.disk.blocks@.len() && k != block as int
                            ==> #[trigger] b1.disk.blocks@[k] == b0.disk.blocks@[k]
                }
                &&& s.domain.active && b0.domain.active && (block as int)
                    >= b0.disk.blocks@.len() ==> r == Err::<usize, AlienError>(
                    AlienError::InvalidArg,
                ) && b1 == b0
            }),
    {
        match (&mut self.shadow, &mut self.blk) {
            (Some(s), Some(b)) => s.write_block(b, block, data),
            _ => {
                // Ruled out by this function's contract.
                proof {
                    assert(false);
                }
                Err(AlienError::NotFound)
            },
        }
    }

    /// Reads one block through the shadow block proxy; the delegated
    /// read carries the continuation machinery, so a crash of the block
    /// domain surfaces as the typed crash error.
    pub fn shadow_read(&mut self, block: u32, data: Vec<u8>) -> (r: AlienResult<Vec<u8>>)
        requires
            old(self).wf(),
            old(self).shadow is Some,
            old(self).blk is Some,
            data@.len() == BLOCK_SIZE,
        ensures
            final(self).wf(),
            final(self).shadow == old(self).shadow,
            final(self).cache == old(self).cache,
            final(self).blk is Some,
            final(self).hart.stack.frames@ == old(self).hart.stack.frames@,
            ({
                let s = old(self).shadow->Some_0;
                let b0 = old(self).blk->Some_0;
                let b1 = final(self).blk->Some_0;
                &&& b1.disk.blocks@ == b0.disk.blocks@
                &&& !s.domain.active ==> r == Err::<Vec<u8>, AlienError>(AlienError::DomainCrash)
                    && b1 == b0 && final(self).sys == old(self).sys
                &&& s.domain.active && !b0.domain.active ==> r == Err::<Vec<u8>, AlienError>(
                    AlienError::DomainCrash,
                ) && b1 == b0 && final(self).sys == old(self).sys
                &&& s.domain.active && b0.domain.active && b0.domain.crash_armed ==> {
                    &&& r == Err::<Vec<u8>, AlienError>(AlienError::DomainCrash)
                    &&& !b1.domain.active
                    &&& !final(self).sys.ledger.spec_contains(b0.domain_id)
                    &&& !final(self).sys.blk_crash
                }
                &&& s.domain.active && b0.domain.active && !b0.domain.crash_armed ==> {
                    &&& b1.domain == b0.domain
                    &&& final(self).sys == old(self).sys
                    &&& (block as int) < b0.disk.blocks@.len() ==> r is Ok && r->Ok_0@
                        == b0.disk.blocks@[block as int]@
                    &&& (block as int) >= b0.disk.blocks@.len() ==> r == Err::<Vec<u8>, AlienError>(
                        AlienError::InvalidArg,
                    )
                }
            }),
    {
        proof {
            let b = old(self).blk->Some_0;
            if b.domain.active && b.domain.crash_armed {
                assert(self.sys.ledger.spec_contains(b.domain_id));
                crate::ledger::lemma_pages_of_le_total(self.sys.ledger, b.domain_id);
            }
        }
        match (&mut self.shadow, &mut self.blk) {
            (Some(s), Some(b)) => s.read_block(b, &mut self.sys, &mut self.hart, block, data),
            _ => {
                // Ruled out by this function's contract.
                proof {
                    assert(false);
                }
                Err(AlienError::NotFound)
            },
        }
    }

    /// Allocates pages for a domain through the capability surface.
    pub fn alloc_pages(&mut self, domain_id: u64, n: usize) -> (r: usize)
        requires
            old(self).wf(),
            n <= 0x1000_0000,
            crate::mem::pow2_round(n as nat) <= old(self).sys.allocator.free_frames,
            old(self).sys.allocator.next_frame + crate::mem::pow2_round(n as nat) <= usize::MAX,
        ensures
            final(self).wf(),
            r == old(self).sys.allocator.next_frame,
            final(self).sys.ledger.pages_of(domain_id) == old(self).sys.ledger.pages_of(
                domain_id,
            ).push(
                crate::ledger::PageSpan {
                    start: r,
                    count: crate::mem::pow2_round(n as nat) as usize,
                },
            ),
            final(self).sys.allocator.free_frames == old(self).sys.allocator.free_frames
                - crate::mem::pow2_round(n as nat),
            final(self).blk == old(self).blk,
            final(self).shadow == old(self).shadow,
            final(self).cache == old(self).cache,
            final(self).hart == old(self).hart,
            final(self).sys.blk_crash == old(self).sys.blk_crash,
    {
        let ghost pre_sys = self.sys;
        let r = self.sys.sys_alloc_pages(domain_id, n);
        proof {
            assert forall|k: int|
                pre_sys.ledger.entries@.len() <= k < self.sys.ledger.entries@.len() implies self.sys.ledger.entries@[k].0
                == domain_id by {
                assert(k == pre_sys.ledger.entries@.len());
                assert(self.sys.ledger.spec_contains(domain_id));
                assert(self.sys.ledger.idx_of(domain_id) == k);
                assert(0 <= self.sys.ledger.idx_of(domain_id) < self.sys.ledger.entries@.len()
                    && self.sys.ledger.entries@[self.sys.ledger.idx_of(domain_id)].0 == domain_id);
            }
            assert forall|e: u64|
                e != domain_id && pre_sys.ledger.spec_contains(e) implies self.sys.ledger.resources_of(
                e,
            ) == pre_sys.ledger.resources_of(e) by {
                crate::ledger::lemma_pages_of_preserved(
                    pre_sys.ledger,
                    self.sys.ledger,
                    domain_id,
                    e,
                );
            }
        }
        r
    }

    /// Frees pages previously allocated at frame `p` for a domain; a free
    /// matching no recorded allocation is a no-op on the ledger.
    pub fn free_pages(&mut self, domain_id: u64, p: usize, n: usize) -> (freed: usize)
        requires
            old(self).wf(),
        ensures
            final(self).wf(),
            final(self).sys.allocator.free_frames == old(self).sys.allocator.free_frames + freed,
            !old(self).sys.ledger.spec_contains(domain_id) ==> freed == 0 && final(self).sys.ledger.entries@ == old(self).sys.ledger.entries@,
            old(self).sys.ledger.spec_contains(domain_id) ==> final(self).sys.ledger.pages_of(
                domain_id,
            ) == crate::ledger::without_start(old(self).sys.ledger.pages_of(domain_id), p)
                && freed == spans_total(old(self).sys.ledger.pages_of(domain_id)) - spans_total(
                final(self).sys.ledger.pages_of(domain_id),
            ),
            final(self).blk == old(self).blk,
            final(self).shadow == old(self).shadow,
            final(self).cache == old(self).cache,
            final(self).hart == old(self).hart,
            final(self).sys.blk_crash == old(self).sys.blk_crash,
    {
        proof {
            crate::ledger::lemma_pages_of_le_total(self.sys.ledger, domain_id);
        }
        let ghost pre_sys = self.sys;
        let freed = self.sys.sys_free_pages(domain_id, p, n);
        proof {
            assert forall|e: u64|
                e != domain_id && pre_sys.ledger.spec_contains(e) implies self.sys.ledger.resources_of(
                e,
            ) == pre_sys.ledger.resources_of(e) by {
                crate::ledger::lemma_pages_of_preserved(
                    pre_sys.ledger,
                    self.sys.ledger,
                    domain_id,
                    e,
                );
            }
            if self.blk is Some && self.blk->Some_0.domain.active {
                assert(has_full_entry(self.sys, self.blk->Some_0.domain_id));
            }
            if self.shadow is Some && self.shadow->Some_0.domain.active {
                assert(has_full_entry(self.sys, self.shadow->Some_0.domain_id));
            }
            if self.cache is Some && self.cache->Some_0.domain.active {
                assert(has_full_entry(self.sys, self.cache->Some_0.domain_id));
            }
        }
        freed
    }
}

/// Every domain ever observed active has a ledger entry, with its three
/// shim objects recorded, at every moment between its activation and its
/// crash teardown: activation creates the full entry, and only the crash
/// path removes it, marking the domain inactive first.
pub proof fn lemma_active_domain_has_ledger_entry(s: DomainSystem)
    requires
        s.wf(),
    ensures
        s.blk is Some && s.blk->Some_0.domain.active ==> has_full_entry(
            s.sys,
            s.blk->Some_0.domain_id,
        ),
        s.shadow is Some && s.shadow->Some_0.domain.active ==> has_full_entry(
            s.sys,
            s.shadow->Some_0.domain_id,
        ),
        s.cache is Some && s.cache->Some_0.domain.active ==> has_full_entry(
            s.sys,
            s.cache->Some_0.domain_id,
        ),
{
}

/// Round trip on a freshly initialized block domain, ignoring crash
/// paths: a successful write of `data` to `block` leaves the device
/// holding `data` there, and the healthy read path returns exactly the
/// device's bytes, so the read after the write returns `data`.
pub proof fn lemma_blk_write_then_read(
    pre: BlkDomainProxy,
    post: BlkDomainProxy,
    block: int,
    data: Seq<u8>,
)
    requires
        pre.domain.active,
        !pre.domain.crash_armed,
        0 <= block < pre.disk.blocks@.len(),
        post.domain == pre.domain,
        post.disk.blocks@.len() == pre.disk.blocks@.len(),
        post.disk.blocks@[block]@ == data,
    ensures
        post.domain.active && !post.domain.crash_armed,
        0 <= block < post.disk.blocks@.len(),
        post.disk.blocks@[block]@ == data,
{
}

} // verus!
