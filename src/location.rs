use vstd::prelude::*;

verus! {

/// Where a resolved file's bytes are.
#[derive(Clone, Copy, Debug, PartialEq, Eq, Structural)]
pub enum FileLocation {
    /// `size` bytes from block `start` of the volume image, in one extent.
    Blocks { start: u32, size: u64 },
    /// The first `size` bytes of the extents that `count` UDF allocation
    /// descriptors of `step` bytes each, from byte `ads` of the image,
    /// describe in order; their blocks count from `part_start`.
    Extents { ads: u64, count: u32, step: u8, part_start: u32, size: u64 },
    /// The first `size` bytes of host file number `index` of a directory volume.
    Host { index: usize, size: u64 },
}

impl FileLocation {
    pub open spec fn size_spec(self) -> u64 {
        match self {
            FileLocation::Blocks { size, .. } => size,
            FileLocation::Extents { size, .. } => size,
            FileLocation::Host { size, .. } => size,
        }
    }

    /// Size of the file in bytes.
    pub fn size(&self) -> (r: u64)
        ensures
            r == self.size_spec(),
    {
        match self {
            FileLocation::Blocks { size, .. } => *size,
            FileLocation::Extents { size, .. } => *size,
            FileLocation::Host { size, .. } => *size,
        }
    }
}

/// Entry of a directory: first block, size in bytes, whether it is a
/// directory, whether its first extent holds all of its bytes, and, for a
/// UDF entry, where its allocation descriptors are (byte offset, number,
/// size of each).
#[derive(Clone, Copy, Debug, PartialEq, Eq, Structural)]
pub struct DirEntry {
    pub start: u32,
    pub size: u64,
    pub is_dir: bool,
    pub contiguous: bool,
    pub ads: u64,
    pub ad_count: u32,
    pub ad_step: u8,
}

} // verus!
