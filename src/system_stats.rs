use vstd::prelude::*;

verus! {

/// Space on the disk that holds the file system root, in bytes.
#[derive(Clone, Copy, Debug, PartialEq, Eq, Structural)]
pub struct DiskSpaceStats {
    pub total_space: u64,
    pub available_space: u64,
}

} // verus!
