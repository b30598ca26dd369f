//! Filesystem-tree assembly.
//!
//! The VFS internals are a collaborator, not part of the core; what is
//! verified here is the shape the boot path builds: which filesystems are
//! registered, which provider is mounted where, and which well-known file
//! ids the kernel file table starts with. Filesystem domains (ramfs,
//! devfs, fatfs) are reached by peer lookup; assembling the tree requires
//! all three to be present.

use crate::error::{AlienError, AlienResult};
use vstd::prelude::*;

verus! {

/// Well-known id of the root directory file.
pub const VFS_ROOT_ID: u64 = 0;

/// Well-known id of standard input.
pub const VFS_STDIN_ID: u64 = 1;

/// Well-known id of standard output.
pub const VFS_STDOUT_ID: u64 = 2;

/// Well-known id of standard error.
pub const VFS_STDERR_ID: u64 = 3;

/// A point in time as the filesystem providers report it.
#[derive(Clone, Copy, Debug, PartialEq, Eq, Structural)]
pub struct VfsTimeSpec {
    pub sec: u64,
    pub nsec: u64,
}

/// The provider the kernel-resident filesystems share; its clock is fixed
/// at the epoch.
#[derive(Clone, Copy)]
pub struct CommonFsProviderImpl;

impl CommonFsProviderImpl {
    /// The current time as this provider reports it.
    pub fn current_time(&self) -> (r: VfsTimeSpec)
        ensures
            r.sec == 0,
            r.nsec == 0,
    {
        VfsTimeSpec { sec: 0, nsec: 0 }
    }
}

/// The kernel-resident filesystem kinds.
#[derive(Clone, Copy, Debug, PartialEq, Eq, Structural)]
pub enum FsKind {
    ProcFs,
    SysFs,
    RamFs,
    TmpFs,
    PipeFs,
}

/// The mount points the boot path populates.
#[derive(Clone, Copy, Debug, PartialEq, Eq, Structural)]
pub enum MountPoint {
    Root,
    Proc,
    Sys,
    Dev,
    Tmp,
    DevShm,
    Tests,
}

/// What backs a mount: a kernel-resident filesystem or a filesystem
/// domain reached through its proxy.
#[derive(Clone, Copy, Debug, PartialEq, Eq, Structural)]
pub enum MountSource {
    Registered(FsKind),
    RamFsDomain,
    DevFsDomain,
    FatFsDomain,
}

/// What a well-known file id refers to.
#[derive(Clone, Copy, Debug, PartialEq, Eq, Structural)]
pub enum FileTarget {
    RootDir,
    DevTty,
}

/// An entry of the kernel file table.
#[derive(Clone, Copy, Debug, PartialEq, Eq, Structural)]
pub struct KernelFileDesc {
    pub target: FileTarget,
    pub readable: bool,
    pub writable: bool,
}

/// The registry of kernel-resident filesystems.
pub struct FsRegistry {
    pub fs: Vec<FsKind>,
}

impl FsRegistry {
    pub fn new() -> (r: FsRegistry)
        ensures
            r.fs@.len() == 0,
    {
        FsRegistry { fs: Vec::new() }
    }
}

/// Registers the five kernel-resident filesystems, in boot order.
pub fn register_all_fs(reg: &mut FsRegistry)
    ensures
        final(reg).fs@ == old(reg).fs@ + seq![
            FsKind::ProcFs,
            FsKind::SysFs,
            FsKind::RamFs,
            FsKind::TmpFs,
            FsKind::PipeFs,
        ],
{
    reg.fs.push(FsKind::ProcFs);
    reg.fs.push(FsKind::SysFs);
    reg.fs.push(FsKind::RamFs);
    reg.fs.push(FsKind::TmpFs);
    reg.fs.push(FsKind::PipeFs);
    proof {
        assert(reg.fs@ =~= old(reg).fs@ + seq![
            FsKind::ProcFs,
            FsKind::SysFs,
            FsKind::RamFs,
            FsKind::TmpFs,
            FsKind::PipeFs,
        ]);
    }
}

/// The assembled filesystem tree: the mount table in mount order and the
/// initial kernel file table.
pub struct VfsTree {
    pub mounts: Vec<(MountPoint, MountSource)>,
    pub vfs_map: Vec<(u64, KernelFileDesc)>,
}

/// The mount table the boot path always builds.
pub open spec fn boot_mounts() -> Seq<(MountPoint, MountSource)> {
    seq![
        (MountPoint::Root, MountSource::RamFsDomain),
        (MountPoint::Proc, MountSource::Registered(FsKind::ProcFs)),
        (MountPoint::Sys, MountSource::Registered(FsKind::SysFs)),
        (MountPoint::Dev, MountSource::DevFsDomain),
        (MountPoint::Tmp, MountSource::Registered(FsKind::TmpFs)),
        (MountPoint::DevShm, MountSource::Registered(FsKind::RamFs)),
        (MountPoint::Tests, MountSource::FatFsDomain),
    ]
}

/// The initial kernel file table: the root directory open read-write, and
/// the three standard streams on the console device (stdout and stderr
/// share one open file).
pub open spec fn boot_vfs_map() -> Seq<(u64, KernelFileDesc)> {
    seq![
        (
            VFS_ROOT_ID,
            KernelFileDesc { target: FileTarget::RootDir, readable: true, writable: true },
        ),
        (
            VFS_STDIN_ID,
            KernelFileDesc { target: FileTarget::DevTty, readable: true, writable: false },
        ),
        (
            VFS_STDOUT_ID,
            KernelFileDesc { target: FileTarget::DevTty, readable: false, writable: true },
        ),
        (
            VFS_STDERR_ID,
            KernelFileDesc { target: FileTarget::DevTty, readable: false, writable: true },
        ),
    ]
}

/// Assembles the filesystem tree: registers the kernel-resident
/// filesystems, mounts the ramfs domain as root, procfs at /proc, sysfs
/// at /sys, the devfs domain at /dev, tmpfs at /tmp, ramfs at /dev/shm
/// and the fatfs domain (backed by the block device) at /tests, then
/// seeds the kernel file table with the root directory and the standard
/// streams. The three filesystem domains must have been resolved by peer
/// lookup before boot reaches this point.
pub fn init_filesystem(
    reg: &mut FsRegistry,
    ramfs_dom: Option<u64>,
    devfs_dom: Option<u64>,
    fatfs_dom: Option<u64>,
) -> (r: AlienResult<VfsTree>)
    requires
        ramfs_dom is Some,
        devfs_dom is Some,
        fatfs_dom is Some,
    ensures
        r is Ok,
        r->Ok_0.mounts@ == boot_mounts(),
        r->Ok_0.vfs_map@ == boot_vfs_map(),
        final(reg).fs@ == old(reg).fs@ + seq![
            FsKind::ProcFs,
            FsKind::SysFs,
            FsKind::RamFs,
            FsKind::TmpFs,
            FsKind::PipeFs,
        ],
{
    register_all_fs(reg);
    let mut mounts: Vec<(MountPoint, MountSource)> = Vec::new();
    mounts.push((MountPoint::Root, MountSource::RamFsDomain));
    mounts.push((MountPoint::Proc, MountSource::Registered(FsKind::ProcFs)));
    mounts.push((MountPoint::Sys, MountSource::Registered(FsKind::SysFs)));
    mounts.push((MountPoint::Dev, MountSource::DevFsDomain));
    mounts.push((MountPoint::Tmp, MountSource::Registered(FsKind::TmpFs)));
    mounts.push((MountPoint::DevShm, MountSource::Registered(FsKind::RamFs)));
    mounts.push((MountPoint::Tests, MountSource::FatFsDomain));
    let mut vfs_map: Vec<(u64, KernelFileDesc)> = Vec::new();
    vfs_map.push(
        (VFS_ROOT_ID, KernelFileDesc { target: FileTarget::RootDir, readable: true, writable: true }),
    );
    vfs_map.push(
        (
            VFS_STDIN_ID,
            KernelFileDesc { target: FileTarget::DevTty, readable: true, writable: false },
        ),
    );
    vfs_map.push(
        (
            VFS_STDOUT_ID,
            KernelFileDesc { target: FileTarget::DevTty, readable: false, writable: true },
        ),
    );
    vfs_map.push(
        (
            VFS_STDERR_ID,
            KernelFileDesc { target: FileTarget::DevTty, readable: false, writable: true },
        ),
    );
    proof {
        assert(mounts@ =~= boot_mounts());
        assert(vfs_map@ =~= boot_vfs_map());
    }
    Ok(VfsTree { mounts, vfs_map })
}

/// The source mounted at the root of the tree.
pub fn system_root_fs(tree: &VfsTree) -> (r: MountSource)
    requires
        tree.mounts@.len() > 0,
        tree.mounts@[0].0 == MountPoint::Root,
    ensures
        r == tree.mounts@[0].1,
{
    tree.mounts[0].1
}

/// Whether a kernel-resident filesystem of this kind was registered, and
/// which one: lookups find the first registration.
pub fn system_support_fs(reg: &FsRegistry, kind: FsKind) -> (r: Option<FsKind>)
    ensures
        r is Some <==> reg.fs@.contains(kind),
        r is Some ==> r->Some_0 == kind,
{
    let mut i: usize = 0;
    let n = reg.fs.len();
    while i < n
        invariant
            n == reg.fs@.len(),
            i <= n,
            forall|k: int| 0 <= k < i ==> reg.fs@[k] != kind,
        decreases n - i,
    {
        if reg.fs[i] == kind {
            return Some(kind);
        }
        i = i + 1;
    }
    proof {
        assert(!reg.fs@.contains(kind)) by {
            if reg.fs@.contains(kind) {
                let k = choose|k: int| 0 <= k < reg.fs@.len() && reg.fs@[k] == kind;
            }
        }
    }
    None
}

} // verus!
