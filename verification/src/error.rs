//! The ways in which a request can be refused.

use vstd::prelude::*;

verus! {

/// Why a volume or a mesh was not built. Each is found before any work is
/// done: a call that fails has changed nothing.
#[derive(Clone, Copy, Debug, PartialEq, Eq, Structural)]
pub enum VoxelError {
    /// The footprint or the height of the volume is zero.
    InvalidDimensions,
    /// A buffer does not have one entry for each cell of the volume.
    BufferSizeMismatch,
    /// The mesh instance has been committed and takes no more geometry.
    Finalized,
}

} // verus!
