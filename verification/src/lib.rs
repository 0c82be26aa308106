//! A verified reader for LAS and LAZ point-cloud files.
//!
//! The library parses the binary LAS container format: the fixed file
//! header, its variable-length records, and the point records themselves,
//! in every standard record layout (0 through 10). Compressed (LAZ) point
//! data is handled chunk by chunk; the entropy decoding of a single chunk
//! is delegated to the `laz` crate while the chunk bookkeeping, the header
//! and the record decoding are verified here.
//!
//! Floating-point header fields (scale factors, offsets, bounding box) are
//! surfaced as raw IEEE-754 bit patterns so that all reasoning stays on
//! integers; callers apply `f64::from_bits` where a double is wanted.

pub mod bytes;
pub mod cursor;
pub mod date;
pub mod error;
pub mod header;
pub mod laz;
pub mod point;
pub mod reader;

pub use error::LasError;
pub use header::Header;
pub use point::Point;
pub use reader::Dataset;
