//! Verified core of a small POSIX-style kernel: lazy cells, an in-memory
//! filesystem, a device registry, process and thread bookkeeping, the
//! copy-on-write fork plan, ELF loading decisions and syscall routing.
use vstd::prelude::*;

pub mod allocfs;
pub mod blockdev;
pub mod blocking;
pub mod devfs;
pub mod elf;
pub mod errno;
pub mod futex;
pub mod lazy_init;
pub mod memset;
pub mod path;
pub mod syscall;
pub mod task;
pub mod text;
pub mod vfs;

verus! {

} // verus!
