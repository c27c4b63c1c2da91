//! The fixed 16-byte header of a container.

use vstd::prelude::*;
use crate::cursor::{available, read_at, ByteCursor};
use crate::error::{FormatError, PackageError};
use crate::wire::{le_u32, u32le_from_slice, ADAT_MAGIC, ADAT_VERSION, HEADER_SIZE};

verus! {

/// The validated header of a container. All integers are stored in the
/// image least significant byte first.
#[derive(Debug, Clone, Copy, PartialEq, Eq)]
pub struct PackageHeader {
    /// The tag "ADAT", read as a little-endian integer.
    pub magic: u32,
    /// Absolute offset of the table of contents.
    pub toc_offset: u32,
    /// Byte length of the table of contents.
    pub toc_length: u32,
    /// The container version.
    pub version: u32,
}

/// Whether the image opens with the tag "ADAT".
pub open spec fn has_magic(header: Seq<u8>) -> bool {
    header.subrange(0, 4) =~= ADAT_MAGIC@
}

/// The header that 16 bytes encode, or the reason they are rejected. The tag
/// is judged before the version.
pub open spec fn parse_header(header: Seq<u8>) -> Result<PackageHeader, PackageError>
    recommends
        header.len() == HEADER_SIZE,
{
    let version = le_u32(header.subrange(12, 16));
    if !has_magic(header) {
        Err(
            PackageError::Format(
                FormatError::MagicMismatch {
                    found_bytes: [header[0], header[1], header[2], header[3]],
                },
            ),
        )
    } else if version != ADAT_VERSION {
        Err(
            PackageError::Format(
                FormatError::VersionMismatch { expected: ADAT_VERSION, found: version },
            ),
        )
    } else {
        Ok(
            PackageHeader {
                magic: le_u32(header.subrange(0, 4)),
                toc_offset: le_u32(header.subrange(4, 8)),
                toc_length: le_u32(header.subrange(8, 12)),
                version,
            },
        )
    }
}

/// What reading a header from `bytes` at `position` yields.
pub open spec fn read_header(bytes: Seq<u8>, position: u64) -> Result<
    PackageHeader,
    PackageError,
> {
    match read_at(bytes, position, HEADER_SIZE) {
        Ok(header) => parse_header(header),
        Err(e) => Err(e),
    }
}

impl PackageHeader {
    /// Whether the tag and the version are the accepted ones.
    pub open spec fn wf(&self) -> bool {
        &&& self.magic == le_u32(ADAT_MAGIC@)
        &&& self.version == ADAT_VERSION
    }

    /// Reads 16 bytes at the cursor's position and validates them as a
    /// header. Once the 16 bytes are read the cursor stands immediately
    /// after them, whether or not they are accepted; a short read leaves it
    /// in place.
    pub fn read_package_header(cursor: &mut ByteCursor) -> (result: Result<
        PackageHeader,
        PackageError,
    >)
        ensures
            final(cursor).bytes() == old(cursor).bytes(),
            result == read_header(old(cursor).bytes(), old(cursor).position()),
            result matches Ok(header) ==> header.wf(),
            final(cursor).position() == if HEADER_SIZE <= available(
                old(cursor).bytes(),
                old(cursor).position(),
            ) {
                old(cursor).position() + HEADER_SIZE
            } else {
                old(cursor).position() as int
            },
    {
        let buffer = match cursor.read_exact(HEADER_SIZE) {
            Ok(buffer) => buffer,
            Err(e) => {
                return Err(e);
            },
        };
        let bytes = buffer.as_slice();
        if bytes[0] != ADAT_MAGIC[0] || bytes[1] != ADAT_MAGIC[1] || bytes[2] != ADAT_MAGIC[2]
            || bytes[3] != ADAT_MAGIC[3] {
            let found_bytes: [u8; 4] = [bytes[0], bytes[1], bytes[2], bytes[3]];
            return Err(PackageError::Format(FormatError::MagicMismatch { found_bytes }));
        }
        let magic = u32le_from_slice(&bytes[0..4]);
        let toc_offset = u32le_from_slice(&bytes[4..8]);
        let toc_length = u32le_from_slice(&bytes[8..12]);
        let version = u32le_from_slice(&bytes[12..16]);
        if version != ADAT_VERSION {
            return Err(
                PackageError::Format(
                    FormatError::VersionMismatch { expected: ADAT_VERSION, found: version },
                ),
            );
        }
        Ok(PackageHeader { magic, toc_offset, toc_length, version })
    }
}

} // verus!
