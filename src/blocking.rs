use vstd::prelude::*;
use crate::allocfs::{AllocFS, file_node, spec_read_into, spec_read_len};
use crate::errno::Errno;

verus! {

/// The state of a suspended operation after one poll.
#[derive(Clone, Copy, Debug, PartialEq, Eq, Structural)]
pub enum Poll<T> {
    Ready(T),
    Pending,
}

/// What one poll of a blocking read or write yields for the result `r` of the
/// underlying call: `EWOULDBLOCK` keeps it pending, anything else ends it.
pub open spec fn spec_settle(r: Result<usize, Errno>) -> Poll<Result<usize, Errno>> {
    match r {
        Err(Errno::EWOULDBLOCK) => Poll::Pending,
        _ => Poll::Ready(r),
    }
}

pub fn settle(r: Result<usize, Errno>) -> (p: Poll<Result<usize, Errno>>)
    ensures
        p == spec_settle(r),
{
    match r {
        Err(Errno::EWOULDBLOCK) => Poll::Pending,
        _ => Poll::Ready(r),
    }
}

/// A read of node `inode` at `offset` that waits until data is there.
#[derive(Clone, Copy, Debug, PartialEq, Eq, Structural)]
pub struct WaitBlockingRead {
    pub inode: usize,
    pub offset: usize,
}

/// A write to node `inode` at `offset` that waits until it is accepted.
#[derive(Clone, Copy, Debug, PartialEq, Eq, Structural)]
pub struct WaitBlockingWrite {
    pub inode: usize,
    pub offset: usize,
}

impl WaitBlockingRead {
    /// One attempt: reads into `buf` and settles the result.
    pub fn poll(&self, fs: &AllocFS, buf: &mut Vec<u8>) -> (p: Poll<Result<usize, Errno>>)
        requires
            fs.wf(),
            self.inode < fs@.len(),
        ensures
            exists|r: Result<usize, Errno>| p == spec_settle(r) && (fs@[file_node(fs@, self.inode as int)] is Dir ==> r == Err::<usize, Errno>(Errno::EISDIR)),
            fs@[file_node(fs@, self.inode as int)] matches crate::allocfs::NodeView::File { content, .. } ==> p == Poll::Ready(Ok::<usize, Errno>(spec_read_len(content.len() as int, self.offset as int, old(buf)@.len() as int) as usize)) && final(buf)@ == spec_read_into(content, self.offset as int, old(buf)@),
    {
        let r = fs.readat(self.inode, self.offset, buf);
        settle(r)
    }
}

impl WaitBlockingWrite {
    /// One attempt: writes `buf` and settles the result.
    pub fn poll(&self, fs: &mut AllocFS, buf: &[u8]) -> (p: Poll<Result<usize, Errno>>)
        requires
            old(fs).wf(),
            self.inode < old(fs)@.len(),
            self.offset + buf@.len() <= usize::MAX,
        ensures
            final(fs).wf(),
            old(fs)@[file_node(old(fs)@, self.inode as int)] is Dir ==> p == Poll::Ready(Err::<usize, Errno>(Errno::EISDIR)),
            old(fs)@[file_node(old(fs)@, self.inode as int)] is File ==> p == Poll::Ready(Ok::<usize, Errno>(buf@.len() as usize)),
    {
        let r = fs.writeat(self.inode, self.offset, buf);
        settle(r)
    }
}

} // verus!
