//! The records of the table of contents and the payloads they point to.

use vstd::prelude::*;
use vstd::utf8::{decode_utf8, valid_utf8};
use crate::cursor::{available, read_at, ByteCursor};
use crate::error::{FormatError, PackageError};
use crate::inflate::{inflate_exact, inflated, result_view};
use crate::text::{str_from_utf8, trim_end_nul, trim_nul};
use crate::wire::{le_u32, u32le_from_slice, ADAT_ENTRY_SIZE, NAME_SIZE};

verus! {

/// One record of the table of contents: where the compressed payload of an
/// entry lies and how large it is before and after inflation.
#[derive(Debug, Clone, Copy, PartialEq, Eq)]
pub struct PackageEntry {
    /// The name as stored: UTF-8, padded with NUL bytes.
    pub name: [u8; 128],
    /// Absolute offset of the compressed payload.
    pub offset: u32,
    /// Size of the payload once inflated.
    pub length: usize,
    /// Size of the payload as stored.
    pub compressed_length: usize,
    /// A field of unknown meaning, kept as found.
    pub reserved: u32,
}

/// The mathematical content of a record.
pub struct EntryView {
    pub name: Seq<u8>,
    pub offset: u32,
    pub length: usize,
    pub compressed_length: usize,
    pub reserved: u32,
}

impl View for PackageEntry {
    type V = EntryView;

    open spec fn view(&self) -> EntryView {
        EntryView {
            name: self.name@,
            offset: self.offset,
            length: self.length,
            compressed_length: self.compressed_length,
            reserved: self.reserved,
        }
    }
}

/// The views of a sequence of records, in the same order.
pub open spec fn entry_views(entries: Seq<PackageEntry>) -> Seq<EntryView> {
    entries.map_values(|e: PackageEntry| e@)
}

/// The record that the bytes of one slot of the table of contents encode:
/// 128 bytes of name, then offset, inflated length, stored length and the
/// reserved field, each a little-endian 32-bit integer.
pub open spec fn parse_entry(record: Seq<u8>) -> EntryView
    recommends
        record.len() == ADAT_ENTRY_SIZE,
{
    EntryView {
        name: record.subrange(0, 128),
        offset: le_u32(record.subrange(128, 132)),
        length: le_u32(record.subrange(132, 136)) as usize,
        compressed_length: le_u32(record.subrange(136, 140)) as usize,
        reserved: le_u32(record.subrange(140, 144)),
    }
}

/// The logical name that a stored name field stands for: its bytes without
/// the trailing NUL padding, decoded as UTF-8. A field that is not valid
/// UTF-8 as a whole stands for no name.
pub open spec fn entry_name(raw: Seq<u8>) -> Option<Seq<char>> {
    if valid_utf8(raw) {
        Some(decode_utf8(trim_nul(raw)))
    } else {
        None
    }
}

/// What reading one record from `bytes` at `position` yields.
pub open spec fn read_entry_at(bytes: Seq<u8>, position: u64) -> Result<EntryView, PackageError> {
    match read_at(bytes, position, ADAT_ENTRY_SIZE as usize) {
        Ok(record) => Ok(parse_entry(record)),
        Err(e) => Err(e),
    }
}

/// The `count` records that lie back to back in `bytes` from `position` on.
pub open spec fn entries_at(bytes: Seq<u8>, position: u64, count: nat) -> Seq<EntryView> {
    Seq::new(
        count,
        |i: int|
            parse_entry(
                bytes.subrange(
                    position + i * ADAT_ENTRY_SIZE,
                    position + i * ADAT_ENTRY_SIZE + ADAT_ENTRY_SIZE,
                ),
            ),
    )
}

/// What reading `count` records in sequence from `bytes` at `position`
/// yields: all of them when that many are there, else the error of the read
/// of the first record that is not there in full.
pub open spec fn read_entries_at(bytes: Seq<u8>, position: u64, count: u32) -> Result<
    Seq<EntryView>,
    PackageError,
> {
    let present = available(bytes, position) / (ADAT_ENTRY_SIZE as nat);
    if count <= present {
        Ok(entries_at(bytes, position, count as nat))
    } else {
        Err(
            PackageError::UnexpectedEof {
                offset: (position + present * ADAT_ENTRY_SIZE) as u64,
                requested: ADAT_ENTRY_SIZE as usize,
            },
        )
    }
}

/// What extracting the entry that `entry` describes from `source` yields:
/// the stored bytes are read at the entry's offset and inflated to exactly
/// the declared length.
pub open spec fn entry_payload(source: Seq<u8>, entry: EntryView) -> Result<Seq<u8>, PackageError> {
    match read_at(source, entry.offset as u64, entry.compressed_length) {
        Ok(stored) => inflated(stored, entry.length),
        Err(e) => Err(e),
    }
}

impl PackageEntry {
    /// Decodes the stored name and cuts off its NUL padding.
    pub fn get_name(&self) -> (result: Result<&str, PackageError>)
        ensures
            match entry_name(self@.name) {
                Some(name) => result matches Ok(s) && s@ == name,
                None => result matches Err(e) && e == PackageError::Format(
                    FormatError::InvalidEntryName,
                ),
            },
    {
        match str_from_utf8(self.name.as_slice()) {
            Some(padded) => Ok(trim_end_nul(padded)),
            None => Err(PackageError::Format(FormatError::InvalidEntryName)),
        }
    }

    /// Seeks to the entry's payload, reads it and inflates it. The cursor's
    /// image is left as it was.
    pub fn read_entry(&self, cursor: &mut ByteCursor) -> (result: Result<Vec<u8>, PackageError>)
        ensures
            final(cursor).bytes() == old(cursor).bytes(),
            result_view(result) == entry_payload(old(cursor).bytes(), self@),
            result matches Ok(bytes) ==> bytes@.len() == self.length,
            final(cursor).position() == if read_at(
                old(cursor).bytes(),
                self.offset as u64,
                self.compressed_length,
            ) is Ok {
                self.offset + self.compressed_length
            } else {
                self.offset as int
            },
    {
        cursor.seek(self.offset as u64);
        let stored = match cursor.read_exact(self.compressed_length) {
            Ok(stored) => stored,
            Err(e) => {
                return Err(e);
            },
        };
        inflate_exact(stored.as_slice(), self.length)
    }

    /// Reads one record at the cursor's position and advances past it. A
    /// short read leaves the cursor in place.
    pub fn read_package_entry(cursor: &mut ByteCursor) -> (result: Result<
        PackageEntry,
        PackageError,
    >)
        ensures
            final(cursor).bytes() == old(cursor).bytes(),
            match read_entry_at(old(cursor).bytes(), old(cursor).position()) {
                Ok(entry) => result matches Ok(e) && e@ == entry && final(cursor).position()
                    == old(cursor).position() + ADAT_ENTRY_SIZE,
                Err(e) => result == Err::<PackageEntry, PackageError>(e)
                    && final(cursor).position() == old(cursor).position(),
            },
    {
        let record = match cursor.read_exact(ADAT_ENTRY_SIZE as usize) {
            Ok(record) => record,
            Err(e) => {
                return Err(e);
            },
        };
        let bytes = record.as_slice();
        let mut name: [u8; 128] = [0u8; 128];
        let mut i: usize = 0;
        while i < NAME_SIZE
            invariant
                i <= NAME_SIZE,
                bytes@.len() == ADAT_ENTRY_SIZE,
                forall|j: int| 0 <= j < i ==> name@[j] == bytes@[j],
            decreases NAME_SIZE - i,
        {
            name[i] = bytes[i];
            i += 1;
        }
        assert(name@ =~= bytes@.subrange(0, 128));
        let offset = u32le_from_slice(&bytes[128..132]);
        let length = u32le_from_slice(&bytes[132..136]) as usize;
        let compressed_length = u32le_from_slice(&bytes[136..140]) as usize;
        let reserved = u32le_from_slice(&bytes[140..144]);
        Ok(PackageEntry { name, offset, length, compressed_length, reserved })
    }

    /// Reads `entry_count` records in sequence, starting at the cursor's
    /// position.
    pub fn read_package_entries(cursor: &mut ByteCursor, entry_count: u32) -> (result: Result<
        Vec<PackageEntry>,
        PackageError,
    >)
        ensures
            final(cursor).bytes() == old(cursor).bytes(),
            match read_entries_at(old(cursor).bytes(), old(cursor).position(), entry_count) {
                Ok(entries) => result matches Ok(v) && entry_views(v@) == entries
                    && final(cursor).position() == old(cursor).position() + entry_count
                    * ADAT_ENTRY_SIZE,
                Err(e) => result matches Err(err) && err == e && PackageError::UnexpectedEof {
                    offset: final(cursor).position(),
                    requested: ADAT_ENTRY_SIZE as usize,
                } == e,
            },
    {
        let ghost bytes = cursor.bytes();
        let ghost start = cursor.position();
        let mut entries: Vec<PackageEntry> = Vec::new();
        let mut i: u32 = 0;
        while i < entry_count
            invariant
                i <= entry_count,
                bytes == old(cursor).bytes(),
                start == old(cursor).position(),
                cursor.bytes() == bytes,
                i > 0 ==> start + i * 144 <= bytes.len(),
                cursor.position() == start + i * 144,
                entries@.len() == i,
                entry_views(entries@) =~= entries_at(bytes, start, i as nat),
            decreases entry_count - i,
        {
            let ghost before = entries@;
            match PackageEntry::read_package_entry(cursor) {
                Ok(entry) => {
                    entries.push(entry);
                    assert forall|j: int| 0 <= j <= i implies entry_views(entries@)[j]
                        == entries_at(bytes, start, (i + 1) as nat)[j] by {
                        if j < i {
                            assert(entry_views(entries@)[j] == entry_views(before)[j]);
                        }
                    }
                },
                Err(e) => {
                    assert(available(bytes, start) / 144 == i);
                    return Err(e);
                },
            }
            i += 1;
        }
        assert(entry_count <= available(bytes, start) / 144);
        Ok(entries)
    }
}

} // verus!
