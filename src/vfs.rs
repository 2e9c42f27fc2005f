use vstd::prelude::*;

verus! {

/// `nsec` value that leaves a timestamp unchanged.
pub const UTIME_OMIT: u64 = 0x3fff_fffe;

/// Mode bits of a directory.
pub const MODE_DIR: u32 = 0o040000;

/// Mode bits of a regular file.
pub const MODE_FILE: u32 = 0o100000;

/// Mode bits of a symbolic link.
pub const MODE_LINK: u32 = 0o120000;

/// Mode bits of a character device.
pub const MODE_CHAR: u32 = 0o020000;

/// A point in time, seconds and nanoseconds.
#[derive(Clone, Copy, Debug, PartialEq, Eq, Structural, Default)]
pub struct TimeSpec {
    pub sec: u64,
    pub nsec: u64,
}

/// The kind of a filesystem node.
#[derive(Clone, Copy, Debug, PartialEq, Eq, Structural)]
pub enum FileType {
    File,
    Directory,
    Link,
    Device,
}

/// One entry of a directory listing.
#[derive(Clone, Debug)]
pub struct DirEntry {
    pub filename: String,
    pub len: usize,
    pub file_type: FileType,
}

/// Node metadata as `stat` reports it.
#[derive(Clone, Copy, Debug, PartialEq, Eq, Structural)]
pub struct Stat {
    pub dev: u64,
    pub ino: u64,
    pub mode: u32,
    pub nlink: u32,
    pub uid: u32,
    pub gid: u32,
    pub rdev: u64,
    pub size: u64,
    pub blksize: u32,
    pub blocks: u64,
    pub atime: TimeSpec,
    pub mtime: TimeSpec,
    pub ctime: TimeSpec,
}

/// The zero time, for timestamps a node does not keep.
pub open spec fn zero_time() -> TimeSpec {
    TimeSpec { sec: 0, nsec: 0 }
}

pub fn time_zero() -> (r: TimeSpec)
    ensures
        r == zero_time(),
{
    TimeSpec { sec: 0, nsec: 0 }
}

} // verus!
