//! Sizes and integer encoding of the container's binary layout.

use vstd::prelude::*;

verus! {

/// Byte length of the container header.
pub const HEADER_SIZE: usize = 16;

/// Byte length of the name field of a record.
pub const NAME_SIZE: usize = 128;

/// Byte length of one record of the table of contents: the name field and
/// four 32-bit integers.
pub const ADAT_ENTRY_SIZE: u32 = 128 + 4 + 4 + 4 + 4;

/// The only container version this reader accepts.
pub const ADAT_VERSION: u32 = 9;

/// The tag "ADAT" that opens every container.
pub const ADAT_MAGIC: [u8; 4] = [65, 68, 65, 84];

/// The unsigned integer that four bytes encode, least significant byte first.
pub open spec fn le_u32(bytes: Seq<u8>) -> u32
    recommends
        bytes.len() == 4,
{
    (bytes[0] as int + bytes[1] as int * 0x100 + bytes[2] as int * 0x1_0000 + bytes[3] as int
        * 0x100_0000) as u32
}

/// Decodes a little-endian 32-bit integer from exactly four bytes.
pub fn u32le_from_slice(acc: &[u8]) -> (value: u32)
    requires
        acc@.len() == 4,
    ensures
        value == le_u32(acc@),
{
    let b0: u32 = acc[0] as u32;
    let b1: u32 = acc[1] as u32;
    let b2: u32 = acc[2] as u32;
    let b3: u32 = acc[3] as u32;
    b0 + b1 * 0x100 + b2 * 0x1_0000 + b3 * 0x100_0000
}

} // verus!
