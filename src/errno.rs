use vstd::prelude::*;

verus! {

/// The POSIX error numbers that the core reports.
#[derive(Clone, Copy, Debug, PartialEq, Eq, Structural)]
pub enum Errno {
    EPERM,
    ENOENT,
    EBADF,
    ENOMEM,
    EEXIST,
    ENOTDIR,
    EISDIR,
    EINVAL,
    ENOSYS,
    EWOULDBLOCK,
    ETIMEDOUT,
}

impl Errno {
    /// The Linux number of the error.
    pub fn code(&self) -> (r: i32)
        ensures
            r == (match *self {
                Errno::EPERM => 1i32,
                Errno::ENOENT => 2,
                Errno::EBADF => 9,
                Errno::ENOMEM => 12,
                Errno::EEXIST => 17,
                Errno::ENOTDIR => 20,
                Errno::EISDIR => 21,
                Errno::EINVAL => 22,
                Errno::ENOSYS => 38,
                Errno::EWOULDBLOCK => 11,
                Errno::ETIMEDOUT => 110,
            }),
    {
        match self {
            Errno::EPERM => 1,
            Errno::ENOENT => 2,
            Errno::EBADF => 9,
            Errno::ENOMEM => 12,
            Errno::EEXIST => 17,
            Errno::ENOTDIR => 20,
            Errno::EISDIR => 21,
            Errno::EINVAL => 22,
            Errno::ENOSYS => 38,
            Errno::EWOULDBLOCK => 11,
            Errno::ETIMEDOUT => 110,
        }
    }
}

} // verus!
