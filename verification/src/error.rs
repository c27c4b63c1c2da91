//! The errors that mounting a container and reading its entries report.

use vstd::prelude::*;

verus! {

/// Why a byte image is not a container that this reader accepts.
#[derive(Debug, Clone, Copy, PartialEq, Eq)]
pub enum FormatError {
    /// The first four bytes, held in `found_bytes`, are not the tag "ADAT".
    MagicMismatch { found_bytes: [u8; 4] },
    /// The header names a version other than the accepted one.
    VersionMismatch { expected: u32, found: u32 },
    /// The table of contents is too short to hold a single record.
    EmptyTableOfContents,
    /// The table of contents does not end on a record boundary.
    MisalignedTableOfContents { toc_length: u32 },
    /// The name field of a record is not valid UTF-8.
    InvalidEntryName,
}

/// Why a stored payload could not be inflated to its declared size.
#[derive(Debug, Clone, Copy, PartialEq, Eq)]
pub enum DecompressionError {
    /// The payload is not a well-formed zlib stream.
    Corrupt,
    /// The payload inflates to more bytes than its record declares.
    LimitExceeded,
    /// The payload inflates to fewer bytes than its record declares.
    SizeMismatch { expected: usize, actual: usize },
}

/// Every error of the library.
#[derive(Debug, Clone, Copy, PartialEq, Eq)]
pub enum PackageError {
    /// The image is not an acceptable container; no package is produced.
    Format(FormatError),
    /// No entry of the index has the requested name.
    NotFound,
    /// A read of `requested` bytes at `offset` ran past the end of the source.
    UnexpectedEof { offset: u64, requested: usize },
    /// The payload of an entry could not be inflated.
    Decompression(DecompressionError),
    /// The inflated bytes of an entry are not valid UTF-8.
    TextDecode,
}

} // verus!
