//! Proxies of the device-side capability sets: shadow block, cache
//! block, RTC, UART, GPU, PLIC and devices-enumeration. Each guards its
//! calls with the activation flag and otherwise forwards unchanged.

use crate::domains::{
    CacheBlkDomain, DeviceInfo, DevicesDomain, GPUDomain, PlicDomain, RtcDomain, RtcTime,
    ShadowBlockDomain, UartDomain, BLOCK_SIZE,
};
use crate::error::{AlienError, AlienResult};
use crate::ledger::spans_total;
use crate::libsyscall::DomainIdent;
use crate::proxy::{BlkDomainProxy, Hart};
use crate::syscall::DomainSyscall;
use vstd::prelude::*;

verus! {

/// The proxy guarding a shadow block domain: the same shape as the block
/// device, composed atop the block proxy found by peer lookup.
pub struct ShadowBlockDomainProxy {
    pub domain_id: u64,
    pub domain: ShadowBlockDomain,
}

impl ShadowBlockDomainProxy {
    pub fn new(domain_id: u64, domain: ShadowBlockDomain) -> (r: ShadowBlockDomainProxy)
        ensures
            r.domain_id == domain_id,
            r.domain == domain,
    {
        ShadowBlockDomainProxy { domain_id, domain }
    }

    pub fn is_active(&self) -> (r: bool)
        ensures
            r == self.domain.active,
    {
        self.domain.active
    }

    /// Forwards an interrupt, unless the domain is down.
    pub fn handle_irq(&mut self) -> (r: AlienResult<()>)
        ensures
            *final(self) == *old(self),
            !old(self).domain.active ==> r == Err::<(), AlienError>(AlienError::DomainCrash),
            old(self).domain.active ==> r == Ok::<(), AlienError>(()),
    {
        if !self.domain.active {
            return Err(AlienError::DomainCrash);
        }
        Ok(())
    }

    /// Records which block domain backs this shadow.
    pub fn init(&mut self, blk_domain: DomainIdent) -> (r: AlienResult<()>)
        ensures
            final(self).domain_id == old(self).domain_id,
            !old(self).domain.active ==> r == Err::<(), AlienError>(AlienError::DomainCrash)
                && *final(self) == *old(self),
            old(self).domain.active ==> r == Ok::<(), AlienError>(()) && final(self).domain.backing
                == Some(blk_domain) && final(self).domain.active,
    {
        if !self.domain.active {
            return Err(AlienError::DomainCrash);
        }
        self.domain.backing = Some(blk_domain);
        Ok(())
    }

    /// Reads a block by delegating to the backing block proxy; the
    /// delegate call carries the continuation machinery, so a crash of
    /// the block domain surfaces here as the typed crash error.
    pub fn read_block(
        &mut self,
        blk: &mut BlkDomainProxy,
        sys: &mut DomainSyscall,
        hart: &mut Hart,
        block: u32,
        data: Vec<u8>,
    ) -> (r: AlienResult<Vec<u8>>)
        requires
            old(blk).wf(),
            old(sys).wf(),
            old(hart).wf(),
            data@.len() == BLOCK_SIZE,
            old(blk).domain.active && old(blk).domain.crash_armed ==> {
                &&& old(sys).ledger.spec_contains(old(blk).domain_id)
                &&& old(sys).ledger.resources_of(old(blk).domain_id).syscall_shim is Some
                &&& old(sys).ledger.resources_of(old(blk).domain_id).heap_shim is Some
                &&& old(sys).ledger.resources_of(old(blk).domain_id).task_shim is Some
                &&& spans_total(old(sys).ledger.pages_of(old(blk).domain_id)) + old(
                    sys,
                ).allocator.free_frames <= usize::MAX
            },
        ensures
            final(blk).wf(),
            final(sys).wf(),
            final(hart).wf(),
            crate::syscall::frames_conserved(*old(sys), *final(sys)),
            *final(self) == *old(self),
            final(hart).stack.frames@ == old(hart).stack.frames@,
            final(blk).disk.blocks@ == old(blk).disk.blocks@,
            final(blk).device_info == old(blk).device_info,
            final(blk).domain_id == old(blk).domain_id,
            final(blk).domain_loader == old(blk).domain_loader,
            !old(self).domain.active ==> {
                &&& r == Err::<Vec<u8>, AlienError>(AlienError::DomainCrash)
                &&& *final(blk) == *old(blk)
                &&& *final(sys) == *old(sys)
                &&& *final(hart) == *old(hart)
            },
            old(self).domain.active && !old(blk).domain.active ==> {
                &&& r == Err::<Vec<u8>, AlienError>(AlienError::DomainCrash)
                &&& *final(blk) == *old(blk)
                &&& *final(sys) == *old(sys)
                &&& *final(hart) == *old(hart)
            },
            old(self).domain.active && old(blk).domain.active && old(blk).domain.crash_armed
                ==> {
                &&& r == Err::<Vec<u8>, AlienError>(AlienError::DomainCrash)
                &&& !final(blk).domain.active
                &&& !final(sys).ledger.spec_contains(old(blk).domain_id)
                &&& !final(sys).blk_crash
                &&& final(sys).registry@ == old(sys).registry@
                &&& final(sys).allocator.free_frames == old(sys).allocator.free_frames
                    + spans_total(old(sys).ledger.pages_of(old(blk).domain_id))
                &&& forall|e: u64|
                    e != old(blk).domain_id ==> (final(sys).ledger.spec_contains(e) == old(
                        sys,
                    ).ledger.spec_contains(e))
                &&& forall|e: u64|
                    e != old(blk).domain_id && final(sys).ledger.spec_contains(e)
                        ==> final(sys).ledger.entries@[final(sys).ledger.idx_of(e)]
                            == old(sys).ledger.entries@[old(sys).ledger.idx_of(e)]
            },
            old(self).domain.active && old(blk).domain.active && !old(blk).domain.crash_armed
                ==> {
                &&& final(blk).domain == old(blk).domain
                &&& *final(sys) == *old(sys)
                &&& (block as int) < old(blk).disk.blocks@.len() ==> r is Ok && r->Ok_0@ == old(
                    blk,
                ).disk.blocks@[block as int]@
                &&& (block as int) >= old(blk).disk.blocks@.len() ==> r == Err::<
                    Vec<u8>,
                    AlienError,
                >(AlienError::InvalidArg)
            },
    {
        if !self.domain.active {
            return Err(AlienError::DomainCrash);
        }
        blk.read_block(sys, hart, block, data)
    }

    /// Writes a block by delegating to the backing block proxy.
    pub fn write_block(&mut self, blk: &mut BlkDomainProxy, block: u32, data: &Vec<u8>) -> (r:
        AlienResult<usize>)
        requires
            old(blk).wf(),
            data@.len() == BLOCK_SIZE,
        ensures
            final(blk).wf(),
            *final(self) == *old(self),
            final(blk).domain == old(blk).domain,
            final(blk).disk.blocks@.len() == old(blk).disk.blocks@.len(),
            final(blk).device_info == old(blk).device_info,
            final(blk).domain_id == old(blk).domain_id,
            final(blk).domain_loader == old(blk).domain_loader,
            !old(self).domain.active ==> r == Err::<usize, AlienError>(AlienError::DomainCrash)
                && *final(blk) == *old(blk),
            old(self).domain.active && !old(blk).domain.active ==> r == Err::<usize, AlienError>(
                AlienError::DomainCrash,
            ) && *final(blk) == *old(blk),
            old(self).domain.active && old(blk).domain.active && (block as int) < old(
                blk,
            ).disk.blocks@.len() ==> {
                &&& r == Ok::<usize, AlienError>(BLOCK_SIZE)
                &&& final(blk).disk.blocks@[block as int]@ == data@
                &&& forall|k: int|
                    0 <= k < old(blk).disk.blocks@.len() && k != block as int ==> #[trigger] final(blk).disk.blocks@[k] == old(blk).disk.blocks@[k]
            },
            old(self).domain.active && old(blk).domain.active && (block as int) >= old(
                blk,
            ).disk.blocks@.len() ==> r == Err::<usize, AlienError>(AlienError::InvalidArg)
                && *final(blk) == *old(blk),
    {
        if !self.domain.active {
            return Err(AlienError::DomainCrash);
        }
        blk.write_block(block, data)
    }

    /// The backing device's capacity in bytes.
    pub fn get_capacity(&self, blk: &BlkDomainProxy) -> (r: AlienResult<u64>)
        requires
            blk.disk.blocks@.len() * BLOCK_SIZE <= u64::MAX,
        ensures
            !self.domain.active ==> r == Err::<u64, AlienError>(AlienError::DomainCrash),
            self.domain.active && !blk.domain.active ==> r == Err::<u64, AlienError>(
                AlienError::DomainCrash,
            ),
            self.domain.active && blk.domain.active ==> r == Ok::<u64, AlienError>(
                (blk.disk.blocks@.len() * BLOCK_SIZE) as u64,
            ),
    {
        if !self.domain.active {
            return Err(AlienError::DomainCrash);
        }
        blk.get_capacity()
    }

    /// Flushes the backing device.
    pub fn flush(&mut self, blk: &mut BlkDomainProxy) -> (r: AlienResult<()>)
        ensures
            *final(self) == *old(self),
            *final(blk) == *old(blk),
            !old(self).domain.active ==> r == Err::<(), AlienError>(AlienError::DomainCrash),
            old(self).domain.active && !old(blk).domain.active ==> r == Err::<(), AlienError>(
                AlienError::DomainCrash,
            ),
            old(self).domain.active && old(blk).domain.active ==> r == Ok::<(), AlienError>(()),
    {
        if !self.domain.active {
            return Err(AlienError::DomainCrash);
        }
        blk.flush()
    }
}

/// The proxy guarding the cache block domain, whose byte-offset calls
/// are served through the block proxy found by peer lookup.
pub struct CacheBlkDomainProxy {
    pub domain_id: u64,
    pub domain: CacheBlkDomain,
}

impl CacheBlkDomainProxy {
    pub fn new(domain_id: u64, domain: CacheBlkDomain) -> (r: CacheBlkDomainProxy)
        ensures
            r.domain_id == domain_id,
            r.domain == domain,
    {
        CacheBlkDomainProxy { domain_id, domain }
    }

    pub fn is_active(&self) -> (r: bool)
        ensures
            r == self.domain.active,
    {
        self.domain.active
    }

    /// Forwards an interrupt, unless the domain is down.
    pub fn handle_irq(&mut self) -> (r: AlienResult<()>)
        ensures
            *final(self) == *old(self),
            !old(self).domain.active ==> r == Err::<(), AlienError>(AlienError::DomainCrash),
            old(self).domain.active ==> r == Ok::<(), AlienError>(()),
    {
        if !self.domain.active {
            return Err(AlienError::DomainCrash);
        }
        Ok(())
    }

    /// Records which block domain the cache sits on; init-style calls
    /// pass through without the activation guard.
    pub fn init(&mut self, blk_domain_name: DomainIdent) -> (r: AlienResult<()>)
        ensures
            r == Ok::<(), AlienError>(()),
            final(self).domain.backing == Some(blk_domain_name),
            final(self).domain.active == old(self).domain.active,
            final(self).domain_id == old(self).domain_id,
    {
        self.domain.backing = Some(blk_domain_name);
        Ok(())
    }

    /// Reads `len` bytes at byte offset `offset` by delegating one block
    /// read to the backing proxy; the span must lie inside one block.
    pub fn read(
        &mut self,
        blk: &mut BlkDomainProxy,
        sys: &mut DomainSyscall,
        hart: &mut Hart,
        offset: u64,
        len: usize,
    ) -> (r: AlienResult<Vec<u8>>)
        requires
            old(blk).wf(),
            old(sys).wf(),
            old(hart).wf(),
            (offset as int % (BLOCK_SIZE as int)) + len <= BLOCK_SIZE,
            offset / (BLOCK_SIZE as u64) <= u32::MAX,
            old(blk).domain.active && old(blk).domain.crash_armed ==> {
                &&& old(sys).ledger.spec_contains(old(blk).domain_id)
                &&& old(sys).ledger.resources_of(old(blk).domain_id).syscall_shim is Some
                &&& old(sys).ledger.resources_of(old(blk).domain_id).heap_shim is Some
                &&& old(sys).ledger.resources_of(old(blk).domain_id).task_shim is Some
                &&& spans_total(old(sys).ledger.pages_of(old(blk).domain_id)) + old(
                    sys,
                ).allocator.free_frames <= usize::MAX
            },
        ensures
            final(blk).wf(),
            final(sys).wf(),
            final(hart).wf(),
            crate::syscall::frames_conserved(*old(sys), *final(sys)),
            *final(self) == *old(self),
            final(hart).stack.frames@ == old(hart).stack.frames@,
            final(blk).disk.blocks@ == old(blk).disk.blocks@,
            final(blk).device_info == old(blk).device_info,
            final(blk).domain_id == old(blk).domain_id,
            final(blk).domain_loader == old(blk).domain_loader,
            !old(self).domain.active ==> {
                &&& r == Err::<Vec<u8>, AlienError>(AlienError::DomainCrash)
                &&& *final(blk) == *old(blk)
                &&& *final(sys) == *old(sys)
                &&& *final(hart) == *old(hart)
            },
            old(self).domain.active && !old(blk).domain.active ==> {
                &&& r == Err::<Vec<u8>, AlienError>(AlienError::DomainCrash)
                &&& *final(blk) == *old(blk)
                &&& *final(sys) == *old(sys)
                &&& *final(hart) == *old(hart)
            },
            old(self).domain.active && old(blk).domain.active && old(blk).domain.crash_armed
                ==> {
                &&& r == Err::<Vec<u8>, AlienError>(AlienError::DomainCrash)
                &&& !final(blk).domain.active
                &&& !final(sys).ledger.spec_contains(old(blk).domain_id)
                &&& !final(sys).blk_crash
                &&& final(sys).registry@ == old(sys).registry@
                &&& final(sys).allocator.free_frames == old(sys).allocator.free_frames
                    + spans_total(old(sys).ledger.pages_of(old(blk).domain_id))
                &&& forall|e: u64|
                    e != old(blk).domain_id ==> (final(sys).ledger.spec_contains(e) == old(
                        sys,
                    ).ledger.spec_contains(e))
                &&& forall|e: u64|
                    e != old(blk).domain_id && final(sys).ledger.spec_contains(e)
                        ==> final(sys).ledger.entries@[final(sys).ledger.idx_of(e)]
                            == old(sys).ledger.entries@[old(sys).ledger.idx_of(e)]
            },
            old(self).domain.active && old(blk).domain.active && !old(blk).domain.crash_armed
                ==> {
                &&& final(blk).domain == old(blk).domain
                &&& *final(sys) == *old(sys)
                &&& (offset as int) / (BLOCK_SIZE as int) < old(blk).disk.blocks@.len() ==> r is Ok
                    && r->Ok_0@ == old(blk).disk.blocks@[offset as int / (BLOCK_SIZE as int)]@.subrange(
                    offset as int % (BLOCK_SIZE as int),
                    offset as int % (BLOCK_SIZE as int) + len,
                )
                &&& (offset as int) / (BLOCK_SIZE as int) >= old(blk).disk.blocks@.len() ==> r
                    == Err::<Vec<u8>, AlienError>(AlienError::InvalidArg)
            },
    {
        if !self.domain.active {
            return Err(AlienError::DomainCrash);
        }
        let block = (offset / (BLOCK_SIZE as u64)) as u32;
        let within = (offset % (BLOCK_SIZE as u64)) as usize;
        let mut buf: Vec<u8> = Vec::new();
        let mut i: usize = 0;
        while i < BLOCK_SIZE
            invariant
                i <= BLOCK_SIZE,
                buf@.len() == i,
            decreases BLOCK_SIZE - i,
        {
            buf.push(0);
            i = i + 1;
        }
        let got = blk.read_block(sys, hart, block, buf);
        match got {
            Ok(full) => {
                proof {
                    assert(full@.len() == BLOCK_SIZE);
                    assert(within + len <= BLOCK_SIZE);
                }
                let mut out: Vec<u8> = Vec::new();
                let mut j: usize = 0;
                while j < len
                    invariant
                        j <= len,
                        within + len <= BLOCK_SIZE,
                        within + len <= full@.len(),
                        out@ == full@.subrange(within as int, within + j),
                    decreases len - j,
                {
                    out.push(full[within + j]);
                    j = j + 1;
                    proof {
                        assert(out@ =~= full@.subrange(within as int, within + j));
                    }
                }
                Ok(out)
            },
            Err(e) => Err(e),
        }
    }

    /// The backing device's capacity in bytes.
    pub fn get_capacity(&self, blk: &BlkDomainProxy) -> (r: AlienResult<u64>)
        requires
            blk.disk.blocks@.len() * BLOCK_SIZE <= u64::MAX,
        ensures
            !self.domain.active ==> r == Err::<u64, AlienError>(AlienError::DomainCrash),
            self.domain.active && !blk.domain.active ==> r == Err::<u64, AlienError>(
                AlienError::DomainCrash,
            ),
            self.domain.active && blk.domain.active ==> r == Ok::<u64, AlienError>(
                (blk.disk.blocks@.len() * BLOCK_SIZE) as u64,
            ),
    {
        if !self.domain.active {
            return Err(AlienError::DomainCrash);
        }
        blk.get_capacity()
    }

    /// Flushes the backing device.
    pub fn flush(&mut self, blk: &mut BlkDomainProxy) -> (r: AlienResult<()>)
        ensures
            *final(self) == *old(self),
            *final(blk) == *old(blk),
            !old(self).domain.active ==> r == Err::<(), AlienError>(AlienError::DomainCrash),
            old(self).domain.active && !old(blk).domain.active ==> r == Err::<(), AlienError>(
                AlienError::DomainCrash,
            ),
            old(self).domain.active && old(blk).domain.active ==> r == Ok::<(), AlienError>(()),
    {
        if !self.domain.active {
            return Err(AlienError::DomainCrash);
        }
        blk.flush()
    }
}

/// The proxy guarding the RTC domain.
pub struct RtcDomainProxy {
    pub domain: RtcDomain,
}

impl RtcDomainProxy {
    pub fn new(_domain_id: u64, domain: RtcDomain) -> (r: RtcDomainProxy)
        ensures
            r.domain == domain,
    {
        RtcDomainProxy { domain }
    }

    pub fn is_active(&self) -> (r: bool)
        ensures
            r == self.domain.active,
    {
        self.domain.active
    }

    /// Forwards an interrupt, unless the domain is down.
    pub fn handle_irq(&mut self) -> (r: AlienResult<()>)
        requires
            old(self).domain.irq_count < u64::MAX,
        ensures
            !old(self).domain.active ==> r == Err::<(), AlienError>(AlienError::DomainCrash)
                && *final(self) == *old(self),
            old(self).domain.active ==> r == Ok::<(), AlienError>(()) && final(self).domain.irq_count
                == old(self).domain.irq_count + 1 && final(self).domain.active && final(self).domain.now == old(self).domain.now,
    {
        if self.domain.active {
            self.domain.irq_count = self.domain.irq_count + 1;
            Ok(())
        } else {
            Err(AlienError::DomainCrash)
        }
    }

    /// Forwards the init argument; init-style calls pass through without
    /// the activation guard.
    pub fn init(&mut self, device_info: DeviceInfo) -> (r: AlienResult<()>)
        ensures
            r == Ok::<(), AlienError>(()),
            final(self).domain.init_log@ == old(self).domain.init_log@.push(device_info),
            final(self).domain.active == old(self).domain.active,
            final(self).domain.now == old(self).domain.now,
            final(self).domain.irq_count == old(self).domain.irq_count,
    {
        self.domain.init_log.push(device_info);
        Ok(())
    }

    /// Reads the current time, unless the domain is down.
    pub fn read_time(&self) -> (r: AlienResult<RtcTime>)
        ensures
            self.domain.active ==> r == Ok::<RtcTime, AlienError>(self.domain.now),
            !self.domain.active ==> r == Err::<RtcTime, AlienError>(AlienError::DomainCrash),
    {
        if self.domain.active {
            Ok(self.domain.now)
        } else {
            Err(AlienError::DomainCrash)
        }
    }
}

/// The proxy guarding the PLIC external-interrupt domain.
pub struct EIntrDomainProxy {
    pub id: u64,
    pub domain: PlicDomain,
}

impl EIntrDomainProxy {
    pub fn new(id: u64, domain: PlicDomain) -> (r: EIntrDomainProxy)
        ensures
            r.id == id,
            r.domain == domain,
    {
        EIntrDomainProxy { id, domain }
    }

    pub fn is_active(&self) -> (r: bool)
        ensures
            r == self.domain.active,
    {
        self.domain.active
    }

    /// Forwards the init argument without the activation guard.
    pub fn init(&mut self, device_info: DeviceInfo) -> (r: AlienResult<()>)
        ensures
            r == Ok::<(), AlienError>(()),
            final(self).domain.init_log@ == old(self).domain.init_log@.push(device_info),
            final(self).domain.active == old(self).domain.active,
            final(self).domain.table@ == old(self).domain.table@,
            final(self).domain.irq_count == old(self).domain.irq_count,
            final(self).id == old(self).id,
    {
        self.domain.init_log.push(device_info);
        Ok(())
    }

    /// Forwards an external interrupt, unless the domain is down.
    pub fn handle_irq(&mut self) -> (r: AlienResult<()>)
        requires
            old(self).domain.irq_count < u64::MAX,
        ensures
            !old(self).domain.active ==> r == Err::<(), AlienError>(AlienError::DomainCrash)
                && *final(self) == *old(self),
            old(self).domain.active ==> r == Ok::<(), AlienError>(()) && final(self).domain.irq_count
                == old(self).domain.irq_count + 1 && final(self).domain.active && final(self).domain.table@ == old(self).domain.table@,
    {
        if !self.domain.active {
            return Err(AlienError::DomainCrash);
        }
        self.domain.irq_count = self.domain.irq_count + 1;
        Ok(())
    }

    /// Registers which device domain serves interrupt `irq`.
    pub fn register_irq(&mut self, irq: usize, device_domain_name: DomainIdent) -> (r: AlienResult<
        (),
    >)
        ensures
            !old(self).domain.active ==> r == Err::<(), AlienError>(AlienError::DomainCrash)
                && *final(self) == *old(self),
            old(self).domain.active ==> r == Ok::<(), AlienError>(()) && final(self).domain.table@
                == old(self).domain.table@.push((irq, device_domain_name)) && final(self).domain.active,
    {
        if !self.domain.active {
            return Err(AlienError::DomainCrash);
        }
        self.domain.table.push((irq, device_domain_name));
        Ok(())
    }

    /// Reports the registered interrupt lines, in registration order.
    pub fn irq_info(&self) -> (r: AlienResult<Vec<(usize, DomainIdent)>>)
        ensures
            !self.domain.active ==> r == Err::<Vec<(usize, DomainIdent)>, AlienError>(
                AlienError::DomainCrash,
            ),
            self.domain.active ==> r is Ok && r->Ok_0@ == self.domain.table@,
    {
        if !self.domain.active {
            return Err(AlienError::DomainCrash);
        }
        let mut out: Vec<(usize, DomainIdent)> = Vec::new();
        let mut i: usize = 0;
        let n = self.domain.table.len();
        while i < n
            invariant
                n == self.domain.table@.len(),
                i <= n,
                out@ == self.domain.table@.take(i as int),
            decreases n - i,
        {
            out.push(self.domain.table[i]);
            i = i + 1;
            proof {
                assert(out@ =~= self.domain.table@.take(i as int));
            }
        }
        proof {
            assert(self.domain.table@.take(n as int) =~= self.domain.table@);
        }
        Ok(out)
    }
}

/// The proxy guarding the devices-enumeration domain.
pub struct DevicesDomainProxy {
    pub id: u64,
    pub domain: DevicesDomain,
}

impl DevicesDomainProxy {
    pub fn new(id: u64, domain: DevicesDomain) -> (r: DevicesDomainProxy)
        ensures
            r.id == id,
            r.domain == domain,
    {
        DevicesDomainProxy { id, domain }
    }

    pub fn is_active(&self) -> (r: bool)
        ensures
            r == self.domain.active,
    {
        self.domain.active
    }

    /// Hands the domain the device-tree blob it probes; init-style
    /// calls pass through without the activation guard. The probe itself
    /// belongs to the domain.
    pub fn init(&mut self, dtb: &Vec<u8>) -> (r: AlienResult<()>)
        ensures
            r == Ok::<(), AlienError>(()),
            final(self).domain.dtb@ == dtb@,
            final(self).domain.active == old(self).domain.active,
            final(self).domain.devices@ == old(self).domain.devices@,
            final(self).id == old(self).id,
    {
        self.domain.dtb = crate::domains::copy_bytes(dtb);
        Ok(())
    }

    /// Looks up the device at `index` in the probed table.
    pub fn index_device(&self, index: usize) -> (r: AlienResult<DeviceInfo>)
        ensures
            !self.domain.active ==> r == Err::<DeviceInfo, AlienError>(AlienError::DomainCrash),
            self.domain.active && (index as int) < self.domain.devices@.len() ==> r == Ok::<
                DeviceInfo,
                AlienError,
            >(self.domain.devices@[index as int]),
            self.domain.active && (index as int) >= self.domain.devices@.len() ==> r == Err::<
                DeviceInfo,
                AlienError,
            >(AlienError::InvalidArg),
    {
        if !self.domain.active {
            return Err(AlienError::DomainCrash);
        }
        if index < self.domain.devices.len() {
            Ok(self.domain.devices[index])
        } else {
            Err(AlienError::InvalidArg)
        }
    }
}

/// The proxy guarding the GPU domain.
pub struct GpuDomainProxy {
    pub id: u64,
    pub domain: GPUDomain,
}

impl GpuDomainProxy {
    pub fn new(id: u64, domain: GPUDomain) -> (r: GpuDomainProxy)
        ensures
            r.id == id,
            r.domain == domain,
    {
        GpuDomainProxy { id, domain }
    }

    pub fn is_active(&self) -> (r: bool)
        ensures
            r == self.domain.active,
    {
        self.domain.active
    }

    /// Forwards the init argument without the activation guard.
    pub fn init(&mut self, device_info: DeviceInfo) -> (r: AlienResult<()>)
        ensures
            r == Ok::<(), AlienError>(()),
            final(self).domain.init_log@ == old(self).domain.init_log@.push(device_info),
            final(self).domain.active == old(self).domain.active,
            final(self).domain.fb@ == old(self).domain.fb@,
            final(self).domain.flush_count == old(self).domain.flush_count,
            final(self).id == old(self).id,
    {
        self.domain.init_log.push(device_info);
        Ok(())
    }

    /// Flushes the framebuffer to the device, unless the domain is down.
    pub fn flush(&mut self) -> (r: AlienResult<()>)
        requires
            old(self).domain.flush_count < u64::MAX,
        ensures
            !old(self).domain.active ==> r == Err::<(), AlienError>(AlienError::DomainCrash)
                && *final(self) == *old(self),
            old(self).domain.active ==> r == Ok::<(), AlienError>(()) && final(self).domain.flush_count == old(self).domain.flush_count + 1 && final(self).domain.fb@
                == old(self).domain.fb@ && final(self).domain.active,
    {
        if !self.domain.active {
            return Err(AlienError::DomainCrash);
        }
        self.domain.flush_count = self.domain.flush_count + 1;
        Ok(())
    }

    /// Fills the framebuffer at byte offset `offset` with `buf`.
    pub fn fill(&mut self, offset: u32, buf: &Vec<u8>) -> (r: AlienResult<usize>)
        ensures
            final(self).domain.fb@.len() == old(self).domain.fb@.len(),
            final(self).domain.active == old(self).domain.active,
            final(self).domain.flush_count == old(self).domain.flush_count,
            final(self).id == old(self).id,
            !old(self).domain.active ==> r == Err::<usize, AlienError>(AlienError::DomainCrash)
                && *final(self) == *old(self),
            old(self).domain.active && offset + buf@.len() <= old(self).domain.fb@.len() ==> {
                &&& r == Ok::<usize, AlienError>(buf@.len() as usize)
                &&& forall|k: int|
                    0 <= k < old(self).domain.fb@.len() ==> #[trigger] final(self).domain.fb@[k]
                        == (if offset <= k < offset + buf@.len() {
                        buf@[k - offset]
                    } else {
                        old(self).domain.fb@[k]
                    })
            },
            old(self).domain.active && offset + buf@.len() > old(self).domain.fb@.len() ==> r
                == Err::<usize, AlienError>(AlienError::InvalidArg) && *final(self) == *old(self),
    {
        if !self.domain.active {
            return Err(AlienError::DomainCrash);
        }
        let off = offset as usize;
        let n = buf.len();
        if off > self.domain.fb.len() || n > self.domain.fb.len() - off {
            return Err(AlienError::InvalidArg);
        }
        let mut k: usize = 0;
        while k < n
            invariant
                k <= n,
                n == buf@.len(),
                off + n <= usize::MAX,
                off + n <= self.domain.fb@.len(),
                self.domain.fb@.len() == old(self).domain.fb@.len(),
                self.domain.active == old(self).domain.active,
                self.domain.flush_count == old(self).domain.flush_count,
                self.domain.init_log@ == old(self).domain.init_log@,
                self.id == old(self).id,
                forall|j: int|
                    0 <= j < old(self).domain.fb@.len() ==> #[trigger] self.domain.fb@[j] == (
                    if off <= j < off + k {
                        buf@[j - off]
                    } else {
                        old(self).domain.fb@[j]
                    }),
            decreases n - k,
    {
            let b = buf[k];
            proof {
                assert(off + k < self.domain.fb@.len());
            }
            self.domain.fb.set(off + k, b);
            k = k + 1;
        }
        Ok(n)
    }

    /// Forwards an interrupt, unless the domain is down.
    pub fn handle_irq(&mut self) -> (r: AlienResult<()>)
        ensures
            *final(self) == *old(self),
            !old(self).domain.active ==> r == Err::<(), AlienError>(AlienError::DomainCrash),
            old(self).domain.active ==> r == Ok::<(), AlienError>(()),
    {
        if !self.domain.active {
            return Err(AlienError::DomainCrash);
        }
        Ok(())
    }
}

/// The proxy guarding the UART domain.
pub struct UartDomainProxy {
    pub id: u64,
    pub domain: UartDomain,
}

impl UartDomainProxy {
    pub fn new(id: u64, domain: UartDomain) -> (r: UartDomainProxy)
        ensures
            r.id == id,
            r.domain == domain,
    {
        UartDomainProxy { id, domain }
    }

    pub fn is_active(&self) -> (r: bool)
        ensures
            r == self.domain.active,
    {
        self.domain.active
    }

    /// Forwards the init argument without the activation guard.
    pub fn init(&mut self, device_info: DeviceInfo) -> (r: AlienResult<()>)
        ensures
            r == Ok::<(), AlienError>(()),
            final(self).domain.init_log@ == old(self).domain.init_log@.push(device_info),
            final(self).domain.active == old(self).domain.active,
            final(self).domain.rx@ == old(self).domain.rx@,
            final(self).domain.tx@ == old(self).domain.tx@,
            final(self).domain.rx_irq_enabled == old(self).domain.rx_irq_enabled,
            final(self).id == old(self).id,
    {
        self.domain.init_log.push(device_info);
        Ok(())
    }

    /// Transmits one byte, unless the domain is down.
    pub fn putc(&mut self, ch: u8) -> (r: AlienResult<()>)
        ensures
            !old(self).domain.active ==> r == Err::<(), AlienError>(AlienError::DomainCrash)
                && *final(self) == *old(self),
            old(self).domain.active ==> r == Ok::<(), AlienError>(()) && final(self).domain.tx@
                == old(self).domain.tx@.push(ch) && final(self).domain.rx@ == old(self).domain.rx@
                && final(self).domain.active && final(self).domain.rx_irq_enabled == old(
                self,
            ).domain.rx_irq_enabled,
    {
        if !self.domain.active {
            return Err(AlienError::DomainCrash);
        }
        self.domain.tx.push(ch);
        Ok(())
    }

    /// Fetches the oldest received byte, if any.
    pub fn getc(&mut self) -> (r: AlienResult<Option<u8>>)
        ensures
            !old(self).domain.active ==> r == Err::<Option<u8>, AlienError>(
                AlienError::DomainCrash,
            ) && *final(self) == *old(self),
            old(self).domain.active && old(self).domain.rx@.len() == 0 ==> r == Ok::<
                Option<u8>,
                AlienError,
            >(None) && *final(self) == *old(self),
            old(self).domain.active && old(self).domain.rx@.len() > 0 ==> r == Ok::<
                Option<u8>,
                AlienError,
            >(Some(old(self).domain.rx@[0])) && final(self).domain.rx@ == old(
                self,
            ).domain.rx@.drop_first() && final(self).domain.tx@ == old(self).domain.tx@ && final(self).domain.active,
    {
        if !self.domain.active {
            return Err(AlienError::DomainCrash);
        }
        if self.domain.rx.len() == 0 {
            return Ok(None);
        }
        let b = self.domain.rx.remove(0);
        Ok(Some(b))
    }

    /// Whether a received byte is waiting.
    pub fn have_data_to_get(&self) -> (r: AlienResult<bool>)
        ensures
            !self.domain.active ==> r == Err::<bool, AlienError>(AlienError::DomainCrash),
            self.domain.active ==> r == Ok::<bool, AlienError>(self.domain.rx@.len() > 0),
    {
        if !self.domain.active {
            return Err(AlienError::DomainCrash);
        }
        Ok(self.domain.rx.len() > 0)
    }

    /// Unmasks the receive interrupt.
    pub fn enable_receive_interrupt(&mut self) -> (r: AlienResult<()>)
        ensures
            !old(self).domain.active ==> r == Err::<(), AlienError>(AlienError::DomainCrash)
                && *final(self) == *old(self),
            old(self).domain.active ==> r == Ok::<(), AlienError>(()) && final(self).domain.rx_irq_enabled && final(self).domain.rx@ == old(self).domain.rx@ && final(self).domain.tx@ == old(self).domain.tx@ && final(self).domain.active,
    {
        if !self.domain.active {
            return Err(AlienError::DomainCrash);
        }
        self.domain.rx_irq_enabled = true;
        Ok(())
    }

    /// Masks the receive interrupt.
    pub fn disable_receive_interrupt(&mut self) -> (r: AlienResult<()>)
        ensures
            !old(self).domain.active ==> r == Err::<(), AlienError>(AlienError::DomainCrash)
                && *final(self) == *old(self),
            old(self).domain.active ==> r == Ok::<(), AlienError>(()) && !final(self).domain.rx_irq_enabled && final(self).domain.rx@ == old(self).domain.rx@ && final(self).domain.tx@ == old(self).domain.tx@ && final(self).domain.active,
    {
        if !self.domain.active {
            return Err(AlienError::DomainCrash);
        }
        self.domain.rx_irq_enabled = false;
        Ok(())
    }

    /// Forwards an interrupt, unless the domain is down.
    pub fn handle_irq(&mut self) -> (r: AlienResult<()>)
        requires
            old(self).domain.irq_count < u64::MAX,
        ensures
            !old(self).domain.active ==> r == Err::<(), AlienError>(AlienError::DomainCrash)
                && *final(self) == *old(self),
            old(self).domain.active ==> r == Ok::<(), AlienError>(()) && final(self).domain.irq_count
                == old(self).domain.irq_count + 1 && final(self).domain.rx@ == old(self).domain.rx@
                && final(self).domain.tx@ == old(self).domain.tx@ && final(self).domain.active,
    {
        if !self.domain.active {
            return Err(AlienError::DomainCrash);
        }
        self.domain.irq_count = self.domain.irq_count + 1;
        Ok(())
    }
}

} // verus!
