//! Domain isolation and fault-recovery core of a small RISC-V kernel.
//!
//! A *domain* is an independently loaded code unit (driver, filesystem,
//! subsystem) that the kernel calls across a narrow capability boundary.
//! This crate verifies the machinery around that boundary: the shared heap
//! of cross-domain values, the per-domain resource ledger, the continuation
//! stack used to unwind a crashed call, the domain loader, the syscall
//! surface a domain sees, and the proxies that guard every cross-boundary
//! call and hot-swap a failed domain.

pub mod continuation;
pub mod device;
pub mod domains;
pub mod error;
pub mod heap;
pub mod ledger;
pub mod libsyscall;
pub mod loader;
pub mod mem;
pub mod poll;
pub mod proxy;
pub mod proxy_dev;
pub mod proxy_task;
pub mod record;
pub mod signal;
pub mod sleeplock;
pub mod syscall;
pub mod system;
pub mod task;
pub mod trap;
pub mod unix;
pub mod vfs_tree;

pub use error::{AlienError, AlienResult};
