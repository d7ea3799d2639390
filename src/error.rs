use vstd::prelude::*;

verus! {

/// Error kinds surfaced by the image builder core.
#[derive(Clone, Copy, Debug, PartialEq, Eq, Structural)]
pub enum BuildError {
    /// Unrecognized conversion string, mismatched override lists, missing sources.
    InvalidConfig,
    /// Chunk size differs across merged layers, several upper blobs in one layer,
    /// parent import into a non-empty manager.
    Inconsistent,
    /// Too many chunks in a blob, too many blobs, too many layers.
    Overflow,
    /// Storage backend failure while fixing up imported blobs.
    BackendFailure,
    /// Local file system failure.
    IoFailure,
    /// A source bootstrap fails the compatibility check.
    CorruptMetadata,
}

} // verus!
