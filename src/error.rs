//! The ways a mapping run can fail.
use vstd::prelude::*;

use crate::imports::ImportSymbol;

verus! {

/// Why mapping an image did not succeed.
#[derive(Debug)]
pub enum MapError {
    /// The image's headers are truncated, carry a wrong signature, or point
    /// outside the buffer.
    MalformedImage,
    /// The image is built for another machine than the one given.
    ArchitectureMismatch,
    /// Reserving the region in the target failed with this system error code.
    RemoteAllocationFailed(u32),
    /// A write into the region fell outside it or was refused.
    RemoteWriteFailed,
    /// A base-relocation block is malformed or addresses memory outside the image.
    RelocationTableCorrupt,
    /// The named library could not be loaded.
    ImportLibraryLoadFailed(Vec<u8>),
    /// The library (first field) has no symbol matching the second field.
    ImportSymbolResolutionFailed(Vec<u8>, ImportSymbol),
    /// The remote side did not signal completion within the polling bound.
    MappingTimeout,
    /// Setting the protection of the section with this index failed.
    ProtectionAdjustmentFailed(u32),
    /// The target process could not be opened; the system error code.
    ProcessOpenFailed(u32),
}

} // verus!
