use vstd::prelude::*;

verus! {

/// A block device, by its number among the registered devices; its driver
/// reads and writes the blocks.
#[derive(Clone, Copy, Debug, PartialEq, Eq, Structural)]
pub struct BlockDev(pub usize);

impl BlockDev {
    pub fn id(&self) -> (r: usize)
        ensures
            r == self.0,
    {
        self.0
    }
}

/// The block device numbered `id`.
pub fn get_block_dev(id: usize) -> (r: BlockDev)
    ensures
        r.0 == id,
{
    BlockDev(id)
}

} // verus!
