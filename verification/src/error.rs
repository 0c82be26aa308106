use vstd::prelude::*;

verus! {

/// Every failure the reader can surface.
///
/// Each variant carries enough context (byte offset, expected versus actual
/// size) to diagnose a corrupt file without re-parsing it.
#[derive(Debug, Clone, Copy, PartialEq, Eq, Structural)]
pub enum LasError {
    /// The file does not start with the ASCII magic bytes "LASF".
    BadMagic,
    /// The version field is outside the supported set 1.0 through 1.4.
    UnsupportedVersion { major: u8, minor: u8 },
    /// Fewer bytes were available than a read required: at byte `offset`,
    /// `needed` bytes were wanted but only `available` remained.
    TruncatedInput { offset: usize, needed: usize, available: usize },
    /// The point-record layout id is outside the known set 0 through 10.
    UnknownLayout { id: u8 },
    /// A fixed header field violates an invariant of the format: a zero
    /// scale factor, an inverted bounding box, a point count that does not
    /// match the per-return counts, a record length below the layout's
    /// minimum, or an offset field pointing before the data it must follow.
    InvalidHeader,
    /// A compressed chunk did not decompress to `expected` bytes, or its
    /// entropy stream was desynchronized.
    CorruptChunk { chunk_index: usize, expected: usize, actual: usize },
    /// The file asks for an optional capability this reader does not have,
    /// such as variable-size or unchunked compressed layouts.
    NotSupported,
}

} // verus!
