use vstd::prelude::*;
use crate::errno::Errno;
use crate::text::str_eq;

verus! {

/// `AT_FDCWD` (-100) as a raw argument word.
pub const AT_FDCWD_WORD: usize = usize::MAX - 99;

/// The `O_RDWR` bits handed to `renameat2` by the calls that lack flags.
pub const RENAME_DEFAULT_FLAGS: usize = 2;

/// The handler that a recognised system call is routed to.
#[derive(Clone, Copy, Debug, PartialEq, Eq, Structural)]
pub enum Handler {
    Getcwd,
    Chdir,
    Openat,
    Dup,
    Dup3,
    Close,
    MkdirAt,
    Read,
    Write,
    Execve,
    Exit,
    Brk,
    Getpid,
    Pipe2,
    Gettimeofday,
    Nanosleep,
    Uname,
    Unlinkat,
    Symlinkat,
    Fstat,
    Wait4,
    SchedYield,
    Getppid,
    Mount,
    Umount2,
    Mmap,
    Munmap,
    Times,
    Getdents64,
    SetTidAddress,
    Gettid,
    Lseek,
    ClockGettime,
    Sigtimedwait,
    Sigsuspend,
    Prlimit64,
    Readv,
    Writev,
    Statfs,
    Pread,
    Pwrite,
    Fstatat,
    Geteuid,
    Getegid,
    Getgid,
    Getuid,
    Getpgid,
    Ioctl,
    Fcntl,
    Utimensat,
    Sigprocmask,
    Sigaction,
    Mprotect,
    Futex,
    Readlinkat,
    Sendfile,
    Tkill,
    Sigreturn,
    Ppoll,
    Getrusage,
    Setpgid,
    Pselect,
    Kill,
    FaccessAt,
    Socket,
    SocketPair,
    Bind,
    Listen,
    Accept,
    Accept4,
    Connect,
    Recvfrom,
    Sendto,
    Klogctl,
    Info,
    Msync,
    ExitGroup,
    Ftruncate,
    Shmget,
    Shmat,
    Shmctl,
    Setitimer,
    Setsockopt,
    Getsockopt,
    Getsockname,
    Getpeername,
    Setsid,
    Shutdown,
    SchedGetparam,
    SchedSetscheduler,
    ClockGetres,
    ClockNanosleep,
    EpollCreate1,
    EpollCtl,
    EpollWait,
    CopyFileRange,
    Getrandom,
    SchedGetaffinity,
    Renameat2,
    Clone,
    Pause,
    Select,
    Mkdir,
    Readlink,
    ArchPrctl,
    Open,
    Fork,
    Unlink,
    Poll,
    Stat,
    Lstat,
    Dup2,
}

impl Handler {
    pub open spec fn spec_is_async(self) -> bool {
        match self {
            Handler::Read => true,
            Handler::Write => true,
            Handler::Execve => true,
            Handler::Nanosleep => true,
            Handler::Wait4 => true,
            Handler::SchedYield => true,
            Handler::Sigtimedwait => true,
            Handler::Sigsuspend => true,
            Handler::Futex => true,
            Handler::Ppoll => true,
            Handler::Pselect => true,
            Handler::Kill => true,
            Handler::Accept => true,
            Handler::Accept4 => true,
            Handler::Connect => true,
            Handler::Recvfrom => true,
            Handler::ClockNanosleep => true,
            Handler::EpollWait => true,
            Handler::Clone => true,
            Handler::Pause => true,
            Handler::Select => true,
            Handler::Fork => true,
            Handler::Poll => true,
            _ => false,
        }
    }

    /// Whether the dispatcher awaits this handler.
    pub fn is_async(&self) -> (r: bool)
        ensures
            r == self.spec_is_async(),
    {
        match self {
            Handler::Read => true,
            Handler::Write => true,
            Handler::Execve => true,
            Handler::Nanosleep => true,
            Handler::Wait4 => true,
            Handler::SchedYield => true,
            Handler::Sigtimedwait => true,
            Handler::Sigsuspend => true,
            Handler::Futex => true,
            Handler::Ppoll => true,
            Handler::Pselect => true,
            Handler::Kill => true,
            Handler::Accept => true,
            Handler::Accept4 => true,
            Handler::Connect => true,
            Handler::Recvfrom => true,
            Handler::ClockNanosleep => true,
            Handler::EpollWait => true,
            Handler::Clone => true,
            Handler::Pause => true,
            Handler::Select => true,
            Handler::Fork => true,
            Handler::Poll => true,
            _ => false,
        }
    }
}

/// How the raw argument words are rearranged for a handler.
#[derive(Clone, Copy, Debug, PartialEq, Eq, Structural)]
pub enum ArgShape {
    /// The six words as they came.
    Plain,
    /// `renameat`: the four words, then the default flags.
    RenameAt,
    /// `rename`: both paths relative to the working directory.
    Rename,
    /// `symlink`: the link made relative to the working directory.
    Symlink,
    /// `pipe`: the array, with no flags.
    Pipe,
    /// `clone`: on x86_64 the child TID and TLS words come swapped.
    Clone,
}

/// What a system call name maps to.
#[derive(Clone, Copy, Debug, PartialEq, Eq, Structural)]
pub enum Target {
    /// Succeeds at once with 0.
    Stub,
    /// Runs `Handler` on the argument words laid out by `ArgShape`.
    Call(Handler, ArgShape),
}

pub open spec fn spec_target_0(name: Seq<char>) -> Option<Target> {
    if name == "getcwd"@ {
        Some(Target::Call(Handler::Getcwd, ArgShape::Plain))
    } else if name == "chdir"@ {
        Some(Target::Call(Handler::Chdir, ArgShape::Plain))
    } else if name == "openat"@ {
        Some(Target::Call(Handler::Openat, ArgShape::Plain))
    } else if name == "dup"@ {
        Some(Target::Call(Handler::Dup, ArgShape::Plain))
    } else if name == "dup3"@ {
        Some(Target::Call(Handler::Dup3, ArgShape::Plain))
    } else if name == "close"@ {
        Some(Target::Call(Handler::Close, ArgShape::Plain))
    } else if name == "mkdirat"@ {
        Some(Target::Call(Handler::MkdirAt, ArgShape::Plain))
    } else if name == "read"@ {
        Some(Target::Call(Handler::Read, ArgShape::Plain))
    } else if name == "write"@ {
        Some(Target::Call(Handler::Write, ArgShape::Plain))
    } else if name == "execve"@ {
        Some(Target::Call(Handler::Execve, ArgShape::Plain))
    } else if name == "exit"@ {
        Some(Target::Call(Handler::Exit, ArgShape::Plain))
    } else if name == "brk"@ {
        Some(Target::Call(Handler::Brk, ArgShape::Plain))
    } else if name == "getpid"@ {
        Some(Target::Call(Handler::Getpid, ArgShape::Plain))
    } else if name == "pipe2"@ {
        Some(Target::Call(Handler::Pipe2, ArgShape::Plain))
    } else if name == "gettimeofday"@ {
        Some(Target::Call(Handler::Gettimeofday, ArgShape::Plain))
    } else if name == "nanosleep"@ {
        Some(Target::Call(Handler::Nanosleep, ArgShape::Plain))
    } else if name == "uname"@ {
        Some(Target::Call(Handler::Uname, ArgShape::Plain))
    } else if name == "unlinkat"@ {
        Some(Target::Call(Handler::Unlinkat, ArgShape::Plain))
    } else if name == "symlinkat"@ {
        Some(Target::Call(Handler::Symlinkat, ArgShape::Plain))
    } else if name == "fstat"@ {
        Some(Target::Call(Handler::Fstat, ArgShape::Plain))
    } else if name == "wait4"@ {
        Some(Target::Call(Handler::Wait4, ArgShape::Plain))
    } else if name == "sched_yield"@ {
        Some(Target::Call(Handler::SchedYield, ArgShape::Plain))
    } else if name == "getppid"@ {
        Some(Target::Call(Handler::Getppid, ArgShape::Plain))
    } else if name == "mount"@ {
        Some(Target::Call(Handler::Mount, ArgShape::Plain))
    } else if name == "umount2"@ {
        Some(Target::Call(Handler::Umount2, ArgShape::Plain))
    } else if name == "mmap"@ {
        Some(Target::Call(Handler::Mmap, ArgShape::Plain))
    } else if name == "munmap"@ {
        Some(Target::Call(Handler::Munmap, ArgShape::Plain))
    } else if name == "times"@ {
        Some(Target::Call(Handler::Times, ArgShape::Plain))
    } else if name == "getdents64"@ {
        Some(Target::Call(Handler::Getdents64, ArgShape::Plain))
    } else if name == "set_tid_address"@ {
        Some(Target::Call(Handler::SetTidAddress, ArgShape::Plain))
    } else if name == "gettid"@ {
        Some(Target::Call(Handler::Gettid, ArgShape::Plain))
    } else if name == "lseek"@ {
        Some(Target::Call(Handler::Lseek, ArgShape::Plain))
    } else {
        None
    }
}

fn target_0(name: &str) -> (r: Option<Target>)
    ensures
        r == spec_target_0(name@),
{
    if str_eq(name, "getcwd") {
        Some(Target::Call(Handler::Getcwd, ArgShape::Plain))
    } else if str_eq(name, "chdir") {
        Some(Target::Call(Handler::Chdir, ArgShape::Plain))
    } else if str_eq(name, "openat") {
        Some(Target::Call(Handler::Openat, ArgShape::Plain))
    } else if str_eq(name, "dup") {
        Some(Target::Call(Handler::Dup, ArgShape::Plain))
    } else if str_eq(name, "dup3") {
        Some(Target::Call(Handler::Dup3, ArgShape::Plain))
    } else if str_eq(name, "close") {
        Some(Target::Call(Handler::Close, ArgShape::Plain))
    } else if str_eq(name, "mkdirat") {
        Some(Target::Call(Handler::MkdirAt, ArgShape::Plain))
    } else if str_eq(name, "read") {
        Some(Target::Call(Handler::Read, ArgShape::Plain))
    } else if str_eq(name, "write") {
        Some(Target::Call(Handler::Write, ArgShape::Plain))
    } else if str_eq(name, "execve") {
        Some(Target::Call(Handler::Execve, ArgShape::Plain))
    } else if str_eq(name, "exit") {
        Some(Target::Call(Handler::Exit, ArgShape::Plain))
    } else if str_eq(name, "brk") {
        Some(Target::Call(Handler::Brk, ArgShape::Plain))
    } else if str_eq(name, "getpid") {
        Some(Target::Call(Handler::Getpid, ArgShape::Plain))
    } else if str_eq(name, "pipe2") {
        Some(Target::Call(Handler::Pipe2, ArgShape::Plain))
    } else if str_eq(name, "gettimeofday") {
        Some(Target::Call(Handler::Gettimeofday, ArgShape::Plain))
    } else if str_eq(name, "nanosleep") {
        Some(Target::Call(Handler::Nanosleep, ArgShape::Plain))
    } else if str_eq(name, "uname") {
        Some(Target::Call(Handler::Uname, ArgShape::Plain))
    } else if str_eq(name, "unlinkat") {
        Some(Target::Call(Handler::Unlinkat, ArgShape::Plain))
    } else if str_eq(name, "symlinkat") {
        Some(Target::Call(Handler::Symlinkat, ArgShape::Plain))
    } else if str_eq(name, "fstat") {
        Some(Target::Call(Handler::Fstat, ArgShape::Plain))
    } else if str_eq(name, "wait4") {
        Some(Target::Call(Handler::Wait4, ArgShape::Plain))
    } else if str_eq(name, "sched_yield") {
        Some(Target::Call(Handler::SchedYield, ArgShape::Plain))
    } else if str_eq(name, "getppid") {
        Some(Target::Call(Handler::Getppid, ArgShape::Plain))
    } else if str_eq(name, "mount") {
        Some(Target::Call(Handler::Mount, ArgShape::Plain))
    } else if str_eq(name, "umount2") {
        Some(Target::Call(Handler::Umount2, ArgShape::Plain))
    } else if str_eq(name, "mmap") {
        Some(Target::Call(Handler::Mmap, ArgShape::Plain))
    } else if str_eq(name, "munmap") {
        Some(Target::Call(Handler::Munmap, ArgShape::Plain))
    } else if str_eq(name, "times") {
        Some(Target::Call(Handler::Times, ArgShape::Plain))
    } else if str_eq(name, "getdents64") {
        Some(Target::Call(Handler::Getdents64, ArgShape::Plain))
    } else if str_eq(name, "set_tid_address") {
        Some(Target::Call(Handler::SetTidAddress, ArgShape::Plain))
    } else if str_eq(name, "gettid") {
        Some(Target::Call(Handler::Gettid, ArgShape::Plain))
    } else if str_eq(name, "lseek") {
        Some(Target::Call(Handler::Lseek, ArgShape::Plain))
    } else {
        None
    }
}

pub open spec fn spec_target_1(name: Seq<char>) -> Option<Target> {
    if name == "clock_gettime"@ {
        Some(Target::Call(Handler::ClockGettime, ArgShape::Plain))
    } else if name == "rt_sigtimedwait"@ {
        Some(Target::Call(Handler::Sigtimedwait, ArgShape::Plain))
    } else if name == "rt_sigsuspend"@ {
        Some(Target::Call(Handler::Sigsuspend, ArgShape::Plain))
    } else if name == "prlimit64"@ {
        Some(Target::Call(Handler::Prlimit64, ArgShape::Plain))
    } else if name == "readv"@ {
        Some(Target::Call(Handler::Readv, ArgShape::Plain))
    } else if name == "writev"@ {
        Some(Target::Call(Handler::Writev, ArgShape::Plain))
    } else if name == "statfs"@ {
        Some(Target::Call(Handler::Statfs, ArgShape::Plain))
    } else if name == "pread64"@ {
        Some(Target::Call(Handler::Pread, ArgShape::Plain))
    } else if name == "pwrite64"@ {
        Some(Target::Call(Handler::Pwrite, ArgShape::Plain))
    } else if name == "fstatat"@ {
        Some(Target::Call(Handler::Fstatat, ArgShape::Plain))
    } else if name == "newfstatat"@ {
        Some(Target::Call(Handler::Fstatat, ArgShape::Plain))
    } else if name == "geteuid"@ {
        Some(Target::Call(Handler::Geteuid, ArgShape::Plain))
    } else if name == "getegid"@ {
        Some(Target::Call(Handler::Getegid, ArgShape::Plain))
    } else if name == "getgid"@ {
        Some(Target::Call(Handler::Getgid, ArgShape::Plain))
    } else if name == "getuid"@ {
        Some(Target::Call(Handler::Getuid, ArgShape::Plain))
    } else if name == "getpgid"@ {
        Some(Target::Call(Handler::Getpgid, ArgShape::Plain))
    } else if name == "ioctl"@ {
        Some(Target::Call(Handler::Ioctl, ArgShape::Plain))
    } else if name == "fcntl"@ {
        Some(Target::Call(Handler::Fcntl, ArgShape::Plain))
    } else if name == "utimensat"@ {
        Some(Target::Call(Handler::Utimensat, ArgShape::Plain))
    } else if name == "rt_sigprocmask"@ {
        Some(Target::Call(Handler::Sigprocmask, ArgShape::Plain))
    } else if name == "rt_sigaction"@ {
        Some(Target::Call(Handler::Sigaction, ArgShape::Plain))
    } else if name == "mprotect"@ {
        Some(Target::Call(Handler::Mprotect, ArgShape::Plain))
    } else if name == "futex"@ {
        Some(Target::Call(Handler::Futex, ArgShape::Plain))
    } else if name == "readlinkat"@ {
        Some(Target::Call(Handler::Readlinkat, ArgShape::Plain))
    } else if name == "sendfile"@ {
        Some(Target::Call(Handler::Sendfile, ArgShape::Plain))
    } else if name == "tkill"@ {
        Some(Target::Call(Handler::Tkill, ArgShape::Plain))
    } else if name == "rt_sigreturn"@ {
        Some(Target::Call(Handler::Sigreturn, ArgShape::Plain))
    } else if name == "get_robust_list"@ {
        Some(Target::Stub)
    } else if name == "ppoll"@ {
        Some(Target::Call(Handler::Ppoll, ArgShape::Plain))
    } else if name == "getrusage"@ {
        Some(Target::Call(Handler::Getrusage, ArgShape::Plain))
    } else if name == "setpgid"@ {
        Some(Target::Call(Handler::Setpgid, ArgShape::Plain))
    } else if name == "pselect6"@ {
        Some(Target::Call(Handler::Pselect, ArgShape::Plain))
    } else {
        None
    }
}

fn target_1(name: &str) -> (r: Option<Target>)
    ensures
        r == spec_target_1(name@),
{
    if str_eq(name, "clock_gettime") {
        Some(Target::Call(Handler::ClockGettime, ArgShape::Plain))
    } else if str_eq(name, "rt_sigtimedwait") {
        Some(Target::Call(Handler::Sigtimedwait, ArgShape::Plain))
    } else if str_eq(name, "rt_sigsuspend") {
        Some(Target::Call(Handler::Sigsuspend, ArgShape::Plain))
    } else if str_eq(name, "prlimit64") {
        Some(Target::Call(Handler::Prlimit64, ArgShape::Plain))
    } else if str_eq(name, "readv") {
        Some(Target::Call(Handler::Readv, ArgShape::Plain))
    } else if str_eq(name, "writev") {
        Some(Target::Call(Handler::Writev, ArgShape::Plain))
    } else if str_eq(name, "statfs") {
        Some(Target::Call(Handler::Statfs, ArgShape::Plain))
    } else if str_eq(name, "pread64") {
        Some(Target::Call(Handler::Pread, ArgShape::Plain))
    } else if str_eq(name, "pwrite64") {
        Some(Target::Call(Handler::Pwrite, ArgShape::Plain))
    } else if str_eq(name, "fstatat") {
        Some(Target::Call(Handler::Fstatat, ArgShape::Plain))
    } else if str_eq(name, "newfstatat") {
        Some(Target::Call(Handler::Fstatat, ArgShape::Plain))
    } else if str_eq(name, "geteuid") {
        Some(Target::Call(Handler::Geteuid, ArgShape::Plain))
    } else if str_eq(name, "getegid") {
        Some(Target::Call(Handler::Getegid, ArgShape::Plain))
    } else if str_eq(name, "getgid") {
        Some(Target::Call(Handler::Getgid, ArgShape::Plain))
    } else if str_eq(name, "getuid") {
        Some(Target::Call(Handler::Getuid, ArgShape::Plain))
    } else if str_eq(name, "getpgid") {
        Some(Target::Call(Handler::Getpgid, ArgShape::Plain))
    } else if str_eq(name, "ioctl") {
        Some(Target::Call(Handler::Ioctl, ArgShape::Plain))
    } else if str_eq(name, "fcntl") {
        Some(Target::Call(Handler::Fcntl, ArgShape::Plain))
    } else if str_eq(name, "utimensat") {
        Some(Target::Call(Handler::Utimensat, ArgShape::Plain))
    } else if str_eq(name, "rt_sigprocmask") {
        Some(Target::Call(Handler::Sigprocmask, ArgShape::Plain))
    } else if str_eq(name, "rt_sigaction") {
        Some(Target::Call(Handler::Sigaction, ArgShape::Plain))
    } else if str_eq(name, "mprotect") {
        Some(Target::Call(Handler::Mprotect, ArgShape::Plain))
    } else if str_eq(name, "futex") {
        Some(Target::Call(Handler::Futex, ArgShape::Plain))
    } else if str_eq(name, "readlinkat") {
        Some(Target::Call(Handler::Readlinkat, ArgShape::Plain))
    } else if str_eq(name, "sendfile") {
        Some(Target::Call(Handler::Sendfile, ArgShape::Plain))
    } else if str_eq(name, "tkill") {
        Some(Target::Call(Handler::Tkill, ArgShape::Plain))
    } else if str_eq(name, "rt_sigreturn") {
        Some(Target::Call(Handler::Sigreturn, ArgShape::Plain))
    } else if str_eq(name, "get_robust_list") {
        Some(Target::Stub)
    } else if str_eq(name, "ppoll") {
        Some(Target::Call(Handler::Ppoll, ArgShape::Plain))
    } else if str_eq(name, "getrusage") {
        Some(Target::Call(Handler::Getrusage, ArgShape::Plain))
    } else if str_eq(name, "setpgid") {
        Some(Target::Call(Handler::Setpgid, ArgShape::Plain))
    } else if str_eq(name, "pselect6") {
        Some(Target::Call(Handler::Pselect, ArgShape::Plain))
    } else {
        None
    }
}

pub open spec fn spec_target_2(name: Seq<char>) -> Option<Target> {
    if name == "kill"@ {
        Some(Target::Call(Handler::Kill, ArgShape::Plain))
    } else if name == "fsync"@ {
        Some(Target::Stub)
    } else if name == "faccessat"@ {
        Some(Target::Call(Handler::FaccessAt, ArgShape::Plain))
    } else if name == "faccessat2"@ {
        Some(Target::Stub)
    } else if name == "socket"@ {
        Some(Target::Call(Handler::Socket, ArgShape::Plain))
    } else if name == "socketpair"@ {
        Some(Target::Call(Handler::SocketPair, ArgShape::Plain))
    } else if name == "bind"@ {
        Some(Target::Call(Handler::Bind, ArgShape::Plain))
    } else if name == "listen"@ {
        Some(Target::Call(Handler::Listen, ArgShape::Plain))
    } else if name == "accept"@ {
        Some(Target::Call(Handler::Accept, ArgShape::Plain))
    } else if name == "accept4"@ {
        Some(Target::Call(Handler::Accept4, ArgShape::Plain))
    } else if name == "connect"@ {
        Some(Target::Call(Handler::Connect, ArgShape::Plain))
    } else if name == "recvfrom"@ {
        Some(Target::Call(Handler::Recvfrom, ArgShape::Plain))
    } else if name == "sendto"@ {
        Some(Target::Call(Handler::Sendto, ArgShape::Plain))
    } else if name == "syslog"@ {
        Some(Target::Call(Handler::Klogctl, ArgShape::Plain))
    } else if name == "sysinfo"@ {
        Some(Target::Call(Handler::Info, ArgShape::Plain))
    } else if name == "msync"@ {
        Some(Target::Call(Handler::Msync, ArgShape::Plain))
    } else if name == "exit_group"@ {
        Some(Target::Call(Handler::ExitGroup, ArgShape::Plain))
    } else if name == "ftruncate"@ {
        Some(Target::Call(Handler::Ftruncate, ArgShape::Plain))
    } else if name == "shmget"@ {
        Some(Target::Call(Handler::Shmget, ArgShape::Plain))
    } else if name == "shmat"@ {
        Some(Target::Call(Handler::Shmat, ArgShape::Plain))
    } else if name == "shmctl"@ {
        Some(Target::Call(Handler::Shmctl, ArgShape::Plain))
    } else if name == "setitimer"@ {
        Some(Target::Call(Handler::Setitimer, ArgShape::Plain))
    } else if name == "setsockopt"@ {
        Some(Target::Call(Handler::Setsockopt, ArgShape::Plain))
    } else if name == "getsockopt"@ {
        Some(Target::Call(Handler::Getsockopt, ArgShape::Plain))
    } else if name == "getsockname"@ {
        Some(Target::Call(Handler::Getsockname, ArgShape::Plain))
    } else if name == "getpeername"@ {
        Some(Target::Call(Handler::Getpeername, ArgShape::Plain))
    } else if name == "setsid"@ {
        Some(Target::Call(Handler::Setsid, ArgShape::Plain))
    } else if name == "shutdown"@ {
        Some(Target::Call(Handler::Shutdown, ArgShape::Plain))
    } else if name == "sched_getparam"@ {
        Some(Target::Call(Handler::SchedGetparam, ArgShape::Plain))
    } else if name == "sched_setscheduler"@ {
        Some(Target::Call(Handler::SchedSetscheduler, ArgShape::Plain))
    } else if name == "clock_getres"@ {
        Some(Target::Call(Handler::ClockGetres, ArgShape::Plain))
    } else if name == "clock_nanosleep"@ {
        Some(Target::Call(Handler::ClockNanosleep, ArgShape::Plain))
    } else {
        None
    }
}

fn target_2(name: &str) -> (r: Option<Target>)
    ensures
        r == spec_target_2(name@),
{
    if str_eq(name, "kill") {
        Some(Target::Call(Handler::Kill, ArgShape::Plain))
    } else if str_eq(name, "fsync") {
        Some(Target::Stub)
    } else if str_eq(name, "faccessat") {
        Some(Target::Call(Handler::FaccessAt, ArgShape::Plain))
    } else if str_eq(name, "faccessat2") {
        Some(Target::Stub)
    } else if str_eq(name, "socket") {
        Some(Target::Call(Handler::Socket, ArgShape::Plain))
    } else if str_eq(name, "socketpair") {
        Some(Target::Call(Handler::SocketPair, ArgShape::Plain))
    } else if str_eq(name, "bind") {
        Some(Target::Call(Handler::Bind, ArgShape::Plain))
    } else if str_eq(name, "listen") {
        Some(Target::Call(Handler::Listen, ArgShape::Plain))
    } else if str_eq(name, "accept") {
        Some(Target::Call(Handler::Accept, ArgShape::Plain))
    } else if str_eq(name, "accept4") {
        Some(Target::Call(Handler::Accept4, ArgShape::Plain))
    } else if str_eq(name, "connect") {
        Some(Target::Call(Handler::Connect, ArgShape::Plain))
    } else if str_eq(name, "recvfrom") {
        Some(Target::Call(Handler::Recvfrom, ArgShape::Plain))
    } else if str_eq(name, "sendto") {
        Some(Target::Call(Handler::Sendto, ArgShape::Plain))
    } else if str_eq(name, "syslog") {
        Some(Target::Call(Handler::Klogctl, ArgShape::Plain))
    } else if str_eq(name, "sysinfo") {
        Some(Target::Call(Handler::Info, ArgShape::Plain))
    } else if str_eq(name, "msync") {
        Some(Target::Call(Handler::Msync, ArgShape::Plain))
    } else if str_eq(name, "exit_group") {
        Some(Target::Call(Handler::ExitGroup, ArgShape::Plain))
    } else if str_eq(name, "ftruncate") {
        Some(Target::Call(Handler::Ftruncate, ArgShape::Plain))
    } else if str_eq(name, "shmget") {
        Some(Target::Call(Handler::Shmget, ArgShape::Plain))
    } else if str_eq(name, "shmat") {
        Some(Target::Call(Handler::Shmat, ArgShape::Plain))
    } else if str_eq(name, "shmctl") {
        Some(Target::Call(Handler::Shmctl, ArgShape::Plain))
    } else if str_eq(name, "setitimer") {
        Some(Target::Call(Handler::Setitimer, ArgShape::Plain))
    } else if str_eq(name, "setsockopt") {
        Some(Target::Call(Handler::Setsockopt, ArgShape::Plain))
    } else if str_eq(name, "getsockopt") {
        Some(Target::Call(Handler::Getsockopt, ArgShape::Plain))
    } else if str_eq(name, "getsockname") {
        Some(Target::Call(Handler::Getsockname, ArgShape::Plain))
    } else if str_eq(name, "getpeername") {
        Some(Target::Call(Handler::Getpeername, ArgShape::Plain))
    } else if str_eq(name, "setsid") {
        Some(Target::Call(Handler::Setsid, ArgShape::Plain))
    } else if str_eq(name, "shutdown") {
        Some(Target::Call(Handler::Shutdown, ArgShape::Plain))
    } else if str_eq(name, "sched_getparam") {
        Some(Target::Call(Handler::SchedGetparam, ArgShape::Plain))
    } else if str_eq(name, "sched_setscheduler") {
        Some(Target::Call(Handler::SchedSetscheduler, ArgShape::Plain))
    } else if str_eq(name, "clock_getres") {
        Some(Target::Call(Handler::ClockGetres, ArgShape::Plain))
    } else if str_eq(name, "clock_nanosleep") {
        Some(Target::Call(Handler::ClockNanosleep, ArgShape::Plain))
    } else {
        None
    }
}

pub open spec fn spec_target_3(name: Seq<char>) -> Option<Target> {
    if name == "epoll_create1"@ {
        Some(Target::Call(Handler::EpollCreate1, ArgShape::Plain))
    } else if name == "epoll_ctl"@ {
        Some(Target::Call(Handler::EpollCtl, ArgShape::Plain))
    } else if name == "epoll_pwait"@ {
        Some(Target::Call(Handler::EpollWait, ArgShape::Plain))
    } else if name == "copy_file_range"@ {
        Some(Target::Call(Handler::CopyFileRange, ArgShape::Plain))
    } else if name == "getrandom"@ {
        Some(Target::Call(Handler::Getrandom, ArgShape::Plain))
    } else if name == "sched_setaffinity"@ {
        Some(Target::Stub)
    } else if name == "sched_getscheduler"@ {
        Some(Target::Stub)
    } else if name == "sched_getaffinity"@ {
        Some(Target::Call(Handler::SchedGetaffinity, ArgShape::Plain))
    } else if name == "setgroups"@ {
        Some(Target::Stub)
    } else if name == "renameat2"@ {
        Some(Target::Call(Handler::Renameat2, ArgShape::Plain))
    } else if name == "renameat"@ {
        Some(Target::Call(Handler::Renameat2, ArgShape::RenameAt))
    } else if name == "clone"@ {
        Some(Target::Call(Handler::Clone, ArgShape::Clone))
    } else if name == "pause"@ {
        Some(Target::Call(Handler::Pause, ArgShape::Plain))
    } else if name == "rename"@ {
        Some(Target::Call(Handler::Renameat2, ArgShape::Rename))
    } else if name == "select"@ {
        Some(Target::Call(Handler::Select, ArgShape::Plain))
    } else if name == "mkdir"@ {
        Some(Target::Call(Handler::Mkdir, ArgShape::Plain))
    } else if name == "readlink"@ {
        Some(Target::Call(Handler::Readlink, ArgShape::Plain))
    } else if name == "symlink"@ {
        Some(Target::Call(Handler::Symlinkat, ArgShape::Symlink))
    } else if name == "arch_prctl"@ {
        Some(Target::Call(Handler::ArchPrctl, ArgShape::Plain))
    } else if name == "open"@ {
        Some(Target::Call(Handler::Open, ArgShape::Plain))
    } else if name == "fork"@ {
        Some(Target::Call(Handler::Fork, ArgShape::Plain))
    } else if name == "pipe"@ {
        Some(Target::Call(Handler::Pipe2, ArgShape::Pipe))
    } else if name == "unlink"@ {
        Some(Target::Call(Handler::Unlink, ArgShape::Plain))
    } else if name == "rmdir"@ {
        Some(Target::Call(Handler::Unlink, ArgShape::Plain))
    } else if name == "poll"@ {
        Some(Target::Call(Handler::Poll, ArgShape::Plain))
    } else if name == "stat"@ {
        Some(Target::Call(Handler::Stat, ArgShape::Plain))
    } else if name == "lstat"@ {
        Some(Target::Call(Handler::Lstat, ArgShape::Plain))
    } else if name == "dup2"@ {
        Some(Target::Call(Handler::Dup2, ArgShape::Plain))
    } else if name == "sync"@ {
        Some(Target::Stub)
    } else if name == "access"@ {
        Some(Target::Stub)
    } else {
        None
    }
}

fn target_3(name: &str) -> (r: Option<Target>)
    ensures
        r == spec_target_3(name@),
{
    if str_eq(name, "epoll_create1") {
        Some(Target::Call(Handler::EpollCreate1, ArgShape::Plain))
    } else if str_eq(name, "epoll_ctl") {
        Some(Target::Call(Handler::EpollCtl, ArgShape::Plain))
    } else if str_eq(name, "epoll_pwait") {
        Some(Target::Call(Handler::EpollWait, ArgShape::Plain))
    } else if str_eq(name, "copy_file_range") {
        Some(Target::Call(Handler::CopyFileRange, ArgShape::Plain))
    } else if str_eq(name, "getrandom") {
        Some(Target::Call(Handler::Getrandom, ArgShape::Plain))
    } else if str_eq(name, "sched_setaffinity") {
        Some(Target::Stub)
    } else if str_eq(name, "sched_getscheduler") {
        Some(Target::Stub)
    } else if str_eq(name, "sched_getaffinity") {
        Some(Target::Call(Handler::SchedGetaffinity, ArgShape::Plain))
    } else if str_eq(name, "setgroups") {
        Some(Target::Stub)
    } else if str_eq(name, "renameat2") {
        Some(Target::Call(Handler::Renameat2, ArgShape::Plain))
    } else if str_eq(name, "renameat") {
        Some(Target::Call(Handler::Renameat2, ArgShape::RenameAt))
    } else if str_eq(name, "clone") {
        Some(Target::Call(Handler::Clone, ArgShape::Clone))
    } else if str_eq(name, "pause") {
        Some(Target::Call(Handler::Pause, ArgShape::Plain))
    } else if str_eq(name, "rename") {
        Some(Target::Call(Handler::Renameat2, ArgShape::Rename))
    } else if str_eq(name, "select") {
        Some(Target::Call(Handler::Select, ArgShape::Plain))
    } else if str_eq(name, "mkdir") {
        Some(Target::Call(Handler::Mkdir, ArgShape::Plain))
    } else if str_eq(name, "readlink") {
        Some(Target::Call(Handler::Readlink, ArgShape::Plain))
    } else if str_eq(name, "symlink") {
        Some(Target::Call(Handler::Symlinkat, ArgShape::Symlink))
    } else if str_eq(name, "arch_prctl") {
        Some(Target::Call(Handler::ArchPrctl, ArgShape::Plain))
    } else if str_eq(name, "open") {
        Some(Target::Call(Handler::Open, ArgShape::Plain))
    } else if str_eq(name, "fork") {
        Some(Target::Call(Handler::Fork, ArgShape::Plain))
    } else if str_eq(name, "pipe") {
        Some(Target::Call(Handler::Pipe2, ArgShape::Pipe))
    } else if str_eq(name, "unlink") {
        Some(Target::Call(Handler::Unlink, ArgShape::Plain))
    } else if str_eq(name, "rmdir") {
        Some(Target::Call(Handler::Unlink, ArgShape::Plain))
    } else if str_eq(name, "poll") {
        Some(Target::Call(Handler::Poll, ArgShape::Plain))
    } else if str_eq(name, "stat") {
        Some(Target::Call(Handler::Stat, ArgShape::Plain))
    } else if str_eq(name, "lstat") {
        Some(Target::Call(Handler::Lstat, ArgShape::Plain))
    } else if str_eq(name, "dup2") {
        Some(Target::Call(Handler::Dup2, ArgShape::Plain))
    } else if str_eq(name, "sync") {
        Some(Target::Stub)
    } else if str_eq(name, "access") {
        Some(Target::Stub)
    } else {
        None
    }
}

/// The routing table: the target of each system call name, `None` for a name
/// that this kernel does not implement.
pub open spec fn spec_target(name: Seq<char>) -> Option<Target> {
    if spec_target_0(name) is Some {
        spec_target_0(name)
    } else if spec_target_1(name) is Some {
        spec_target_1(name)
    } else if spec_target_2(name) is Some {
        spec_target_2(name)
    } else {
        spec_target_3(name)
    }
}

/// Looks a system call name up in the routing table.
pub fn target_of(name: &str) -> (r: Option<Target>)
    ensures
        r == spec_target(name@),
{
    let t0 = target_0(name);
    if t0.is_some() {
        return t0;
    }
    let t1 = target_1(name);
    if t1.is_some() {
        return t1;
    }
    let t2 = target_2(name);
    if t2.is_some() {
        return t2;
    }
    target_3(name)
}

/// The argument words that a handler receives, by the shape of its call.
pub open spec fn spec_shape_args(shape: ArgShape, a: Seq<usize>, x86_64: bool) -> Seq<usize> {
    match shape {
        ArgShape::Plain => a,
        ArgShape::RenameAt => seq![a[0], a[1], a[2], a[3], RENAME_DEFAULT_FLAGS, 0],
        ArgShape::Rename => seq![AT_FDCWD_WORD, a[0], AT_FDCWD_WORD, a[1], RENAME_DEFAULT_FLAGS, 0],
        ArgShape::Symlink => seq![a[0], AT_FDCWD_WORD, a[1], 0, 0, 0],
        ArgShape::Pipe => seq![a[0], 0, 0, 0, 0, 0],
        ArgShape::Clone => if x86_64 {
            seq![a[0], a[1], a[2], a[4], a[3], a[5]]
        } else {
            a
        },
    }
}

pub fn shape_args(shape: ArgShape, a: &[usize; 6], x86_64: bool) -> (r: [usize; 6])
    ensures
        r@ == spec_shape_args(shape, a@, x86_64),
{
    let r = match shape {
        ArgShape::Plain => *a,
        ArgShape::RenameAt => [a[0], a[1], a[2], a[3], RENAME_DEFAULT_FLAGS, 0],
        ArgShape::Rename => [AT_FDCWD_WORD, a[0], AT_FDCWD_WORD, a[1], RENAME_DEFAULT_FLAGS, 0],
        ArgShape::Symlink => [a[0], AT_FDCWD_WORD, a[1], 0, 0, 0],
        ArgShape::Pipe => [a[0], 0, 0, 0, 0, 0],
        ArgShape::Clone => if x86_64 {
            [a[0], a[1], a[2], a[4], a[3], a[5]]
        } else {
            *a
        },
    };
    assert(r@ =~= spec_shape_args(shape, a@, x86_64));
    r
}

/// The outcome of decoding one system call.
#[derive(Clone, Copy, Debug)]
pub enum Dispatch {
    /// A stub that succeeds with 0.
    Done,
    /// A handler to run on these argument words (awaited when it is asynchronous).
    Call(Handler, [usize; 6]),
    /// Not implemented here: fails with `EPERM` after a warning.
    Unsupported,
}

impl Dispatch {
    /// The result that the dispatcher returns without running a handler.
    pub fn immediate(&self) -> (r: Option<Result<usize, Errno>>)
        ensures
            *self is Done ==> r == Some(Ok::<usize, Errno>(0)),
            *self is Unsupported ==> r == Some(Err::<usize, Errno>(Errno::EPERM)),
            *self is Call ==> r is None,
    {
        match self {
            Dispatch::Done => Some(Ok(0)),
            Dispatch::Call(_, _) => None,
            Dispatch::Unsupported => Some(Err(Errno::EPERM)),
        }
    }

    /// Whether a warning is logged for this call.
    pub fn warns(&self) -> (r: bool)
        ensures
            r == (*self is Unsupported),
    {
        match self {
            Dispatch::Unsupported => true,
            _ => false,
        }
    }
}

/// The name of system call number `id` in the table of the architecture that
/// the kernel is built for.
pub uninterp spec fn sysno_name_of(id: usize) -> Option<Seq<char>>;

/// Relies on `syscalls::Sysno::new`, which decodes a number by the build
/// target's table (`None` for a number not in it), and `Sysno::name`, the
/// variant's name as text.
#[verifier::external_body]
fn sysno_name(id: usize) -> (r: Option<&'static str>)
    ensures
        r is Some <==> sysno_name_of(id) is Some,
        r is Some ==> r->0@ == sysno_name_of(id)->0,
{
    syscalls::Sysno::new(id).map(|s| s.name())
}

/// Whether `r` is the dispatch of a system call with this name and these
/// argument words.
pub open spec fn is_route(r: Dispatch, name: Option<Seq<char>>, args: Seq<usize>, x86_64: bool) -> bool {
    match name {
        None => r is Unsupported,
        Some(n) => match spec_target(n) {
            None => r is Unsupported,
            Some(Target::Stub) => r is Done,
            Some(Target::Call(h, shape)) => match r {
                Dispatch::Call(rh, ra) => rh == h && ra@ == spec_shape_args(shape, args, x86_64),
                _ => false,
            },
        },
    }
}

/// Routes a decoded system call name; `None` stands for a number that the
/// architecture does not define.
pub fn route(name: Option<&str>, args: &[usize; 6], x86_64: bool) -> (r: Dispatch)
    ensures
        is_route(
            r,
            match name {
                Some(n) => Some(n@),
                None => None,
            },
            args@,
            x86_64,
        ),
{
    match name {
        None => Dispatch::Unsupported,
        Some(n) => match target_of(n) {
            None => Dispatch::Unsupported,
            Some(Target::Stub) => Dispatch::Done,
            Some(Target::Call(h, shape)) => {
                let shaped = shape_args(shape, args, x86_64);
                Dispatch::Call(h, shaped)
            },
        },
    }
}

/// Decodes system call `call_id` with its six argument words. `x86_64` selects
/// that ABI's argument order where it differs.
pub fn syscall(call_id: usize, args: [usize; 6], x86_64: bool) -> (r: Dispatch)
    ensures
        is_route(r, sysno_name_of(call_id), args@, x86_64),
{
    let name = sysno_name(call_id);
    route(name, &args, x86_64)
}

} // verus!
