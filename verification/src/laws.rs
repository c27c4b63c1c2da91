//! Laws that relate mounting, listing and reading.

use vstd::prelude::*;
use vstd::utf8::valid_utf8;
use crate::cursor::{available, read_at};
use crate::entry::{entries_at, entry_name, read_entries_at, EntryView};
use crate::error::{FormatError, PackageError};
use crate::header::{has_magic, read_header};
use crate::package::{
    build_index, mount_spec, name_views, names_valid, Package, PackageView,
};
use crate::wire::{le_u32, ADAT_ENTRY_SIZE, ADAT_VERSION, HEADER_SIZE};

verus! {

/// The version field of the header of `source`.
pub open spec fn stored_version(source: Seq<u8>) -> u32 {
    le_u32(source.subrange(12, 16))
}

/// The offset of the table of contents that the header of `source` names.
pub open spec fn stored_toc_offset(source: Seq<u8>) -> u32 {
    le_u32(source.subrange(4, 8))
}

/// The length of the table of contents that the header of `source` names.
pub open spec fn stored_toc_length(source: Seq<u8>) -> u32 {
    le_u32(source.subrange(8, 12))
}

/// The records that the header of `source` announces, read where it says
/// they are.
pub open spec fn stored_entries(source: Seq<u8>) -> Seq<EntryView> {
    entries_at(
        source,
        stored_toc_offset(source) as u64,
        (stored_toc_length(source) / ADAT_ENTRY_SIZE) as nat,
    )
}

/// Whether the image holds a whole header with the tag "ADAT", the
/// accepted version, and a table of contents whose length is positive and a
/// multiple of the record size.
pub open spec fn header_accepted(source: Seq<u8>) -> bool {
    &&& source.len() >= HEADER_SIZE
    &&& has_magic(source.subrange(0, 16))
    &&& stored_version(source) == ADAT_VERSION
    &&& stored_toc_length(source) > 0
    &&& stored_toc_length(source) % ADAT_ENTRY_SIZE == 0
}

/// Whether the table of contents that the header announces lies within the
/// image and holds only names that are valid UTF-8.
pub open spec fn toc_intact(source: Seq<u8>) -> bool {
    &&& stored_toc_offset(source) + stored_toc_length(source) <= source.len()
    &&& names_valid(stored_entries(source))
}

/// Mounting succeeds exactly when the header is accepted, on every image
/// but those whose header is accepted while the table of contents it
/// announces is cut short or holds a name that is not valid UTF-8; those are
/// rejected although their header is in order.
pub proof fn lemma_mount_succeeds_iff(source: Seq<u8>)
    requires
        header_accepted(source) ==> toc_intact(source),
    ensures
        mount_spec(source) is Ok <==> header_accepted(source),
{
    if source.len() >= HEADER_SIZE {
        lemma_header_fields(source);
        let header = source.subrange(0, 16);
        assert(read_at(source, 0, HEADER_SIZE) == Ok::<Seq<u8>, PackageError>(header));
        if header_accepted(source) {
            let offset = stored_toc_offset(source);
            let length = stored_toc_length(source);
            let count = length / ADAT_ENTRY_SIZE;
            assert(read_header(source, 0) matches Ok(h) && h.toc_offset == offset
                && h.toc_length == length);
            assert(length == count * 144);
            assert(available(source, offset as u64) >= length);
            assert(count <= available(source, offset as u64) / 144);
            assert(read_entries_at(source, offset as u64, count) == Ok::<
                Seq<EntryView>,
                PackageError,
            >(stored_entries(source)));
        }
    }
}

/// An image whose header is accepted and whose table of contents is cut
/// short or holds an invalid name is rejected.
pub proof fn lemma_mount_needs_intact_toc(source: Seq<u8>)
    requires
        header_accepted(source),
        !toc_intact(source),
    ensures
        mount_spec(source) is Err,
{
    lemma_header_fields(source);
    let header = source.subrange(0, 16);
    assert(read_at(source, 0, HEADER_SIZE) == Ok::<Seq<u8>, PackageError>(header));
    let offset = stored_toc_offset(source);
    let length = stored_toc_length(source);
    let count = length / ADAT_ENTRY_SIZE;
    assert(read_header(source, 0) matches Ok(h) && h.toc_offset == offset && h.toc_length
        == length);
    assert(length == count * 144);
    if offset + length <= source.len() {
        assert(available(source, offset as u64) >= length);
        assert(count <= available(source, offset as u64) / 144);
    } else {
        assert(available(source, offset as u64) < length);
        assert(count > available(source, offset as u64) / 144);
    }
}

/// The fields of the first 16 bytes of an image are the fields of the image.
proof fn lemma_header_fields(source: Seq<u8>)
    requires
        source.len() >= HEADER_SIZE,
    ensures
        source.subrange(0, 16).subrange(0, 4) == source.subrange(0, 4),
        source.subrange(0, 16).subrange(4, 8) == source.subrange(4, 8),
        source.subrange(0, 16).subrange(8, 12) == source.subrange(8, 12),
        source.subrange(0, 16).subrange(12, 16) == source.subrange(12, 16),
{
    assert(source.subrange(0, 16).subrange(0, 4) =~= source.subrange(0, 4));
    assert(source.subrange(0, 16).subrange(4, 8) =~= source.subrange(4, 8));
    assert(source.subrange(0, 16).subrange(8, 12) =~= source.subrange(8, 12));
    assert(source.subrange(0, 16).subrange(12, 16) =~= source.subrange(12, 16));
}

/// An image of at least 16 bytes whose first four bytes are not the tag is
/// rejected with `MagicMismatch`, which carries these four bytes; no package
/// comes of it.
pub proof fn lemma_altered_magic(source: Seq<u8>)
    requires
        source.len() >= HEADER_SIZE,
        !has_magic(source.subrange(0, 16)),
    ensures
        mount_spec(source) matches Err(
            PackageError::Format(FormatError::MagicMismatch { found_bytes }),
        ) && found_bytes@ == source.subrange(0, 4),
{
    lemma_header_fields(source);
    let found_bytes: [u8; 4] = [source[0], source[1], source[2], source[3]];
    assert(found_bytes@ =~= source.subrange(0, 4));
}

/// An image with the right tag and another version than the accepted one is
/// rejected with `VersionMismatch`, which names both versions.
pub proof fn lemma_version_mismatch(source: Seq<u8>)
    requires
        source.len() >= HEADER_SIZE,
        has_magic(source.subrange(0, 16)),
        stored_version(source) != ADAT_VERSION,
    ensures
        mount_spec(source) == Err::<PackageView, PackageError>(
            PackageError::Format(
                FormatError::VersionMismatch {
                    expected: ADAT_VERSION,
                    found: stored_version(source),
                },
            ),
        ),
{
    lemma_header_fields(source);
}

/// Whether some record of `entries` has the logical name `name`.
pub open spec fn is_named(entries: Seq<EntryView>, name: Seq<char>) -> bool {
    exists|i: int| 0 <= i < entries.len() && #[trigger] entry_name(entries[i].name) == Some(name)
}

/// Every prefix of a table whose names are valid has valid names.
proof fn lemma_names_valid_front(entries: Seq<EntryView>)
    requires
        names_valid(entries),
        entries.len() > 0,
    ensures
        names_valid(entries.drop_last()),
        entry_name(entries.last().name) is Some,
{
    let front = entries.drop_last();
    assert forall|i: int| 0 <= i < front.len() implies valid_utf8(#[trigger] front[i].name) by {
        assert(front[i] == entries[i]);
        assert(valid_utf8(entries[i].name));
    }
    assert(valid_utf8(entries[entries.len() - 1].name));
}

/// The index holds exactly the logical names of the records.
pub proof fn lemma_index_names(entries: Seq<EntryView>, name: Seq<char>)
    requires
        names_valid(entries),
    ensures
        build_index(entries).contains_key(name) <==> is_named(entries, name),
    decreases entries.len(),
{
    if entries.len() > 0 {
        let front = entries.drop_last();
        let last = entries.last();
        lemma_names_valid_front(entries);
        lemma_index_names(front, name);
        let key = entry_name(last.name).unwrap();
        assert(build_index(entries) == build_index(front).insert(key, last));
        if is_named(front, name) {
            let i = choose|i: int|
                0 <= i < front.len() && #[trigger] entry_name(front[i].name) == Some(name);
            assert(front[i] == entries[i]);
            assert(entry_name(entries[i].name) == Some(name));
        }
        if key == name {
            assert(entry_name(entries[entries.len() - 1].name) == Some(name));
        }
        if is_named(entries, name) {
            let i = choose|i: int|
                0 <= i < entries.len() && #[trigger] entry_name(entries[i].name) == Some(name);
            if i < front.len() {
                assert(front[i] == entries[i]);
                assert(entry_name(front[i].name) == Some(name));
            }
        }
    }
}

/// Under each name the index holds the last record that bears it: a record
/// that no later record shares its name with is the one found under its
/// name.
pub proof fn lemma_index_last_wins(entries: Seq<EntryView>, i: int)
    requires
        names_valid(entries),
        0 <= i < entries.len(),
        forall|j: int|
            i < j < entries.len() ==> entry_name(#[trigger] entries[j].name) != entry_name(
                entries[i].name,
            ),
    ensures
        entry_name(entries[i].name) matches Some(name) && build_index(entries).contains_key(name)
            && build_index(entries)[name] == entries[i],
    decreases entries.len(),
{
    let front = entries.drop_last();
    let last = entries.last();
    lemma_names_valid_front(entries);
    assert(valid_utf8(entries[i].name));
    let key = entry_name(last.name).unwrap();
    assert(build_index(entries) == build_index(front).insert(key, last));
    if i < front.len() {
        assert(front[i] == entries[i]);
        assert(entry_name(entries[entries.len() - 1].name) != entry_name(entries[i].name));
        assert forall|j: int| i < j < front.len() implies entry_name(#[trigger] front[j].name)
            != entry_name(front[i].name) by {
            assert(front[j] == entries[j]);
            assert(entry_name(entries[j].name) != entry_name(entries[i].name));
        }
        lemma_index_last_wins(front, i);
    }
}

/// The index of a well-formed package is the index over the records that
/// the header of its source announces, so `list_entries` returns exactly
/// their logical names.
pub proof fn lemma_package_index(package: Package)
    requires
        package.wf(),
    ensures
        package@.index == build_index(stored_entries(package@.source)),
        names_valid(stored_entries(package@.source)),
{
    package.lemma_mounted();
    lemma_header_fields(package@.source);
}

/// A listing of a well-formed package, which holds the names of its index,
/// holds exactly the logical names of the records that the header of its
/// source announces.
pub proof fn lemma_listed_names(package: Package, names: Seq<String>, name: Seq<char>)
    requires
        package.wf(),
        name_views(names).to_set() == package@.index.dom(),
    ensures
        name_views(names).contains(name) <==> is_named(stored_entries(package@.source), name),
{
    lemma_package_index(package);
    lemma_index_names(stored_entries(package@.source), name);
    assert(name_views(names).to_set().contains(name) <==> name_views(names).contains(name));
}

/// Whatever a read returns, it has exactly the length that the entry's
/// record declares.
pub proof fn lemma_read_length(view: PackageView, name: Seq<char>)
    ensures
        view.read(name) matches Ok(bytes) ==> view.index.contains_key(name) && bytes.len()
            == view.index[name].length,
{
}

/// Two successive reads of one name return the same.
pub proof fn lemma_read_twice(
    first: Package,
    second: Package,
    third: Package,
    name: Seq<char>,
    r1: Result<Seq<u8>, PackageError>,
    r2: Result<Seq<u8>, PackageError>,
)
    requires
        first.reads(name, second, r1),
        second.reads(name, third, r2),
    ensures
        r1 == r2,
{
}

/// A read of a name that the index does not hold fails with `NotFound`, and
/// a read that follows it returns what it would have returned before.
pub proof fn lemma_read_after_miss(
    first: Package,
    second: Package,
    third: Package,
    absent: Seq<char>,
    name: Seq<char>,
    r1: Result<Seq<u8>, PackageError>,
    r2: Result<Seq<u8>, PackageError>,
)
    requires
        !first@.index.contains_key(absent),
        first.reads(absent, second, r1),
        second.reads(name, third, r2),
    ensures
        r1 == Err::<Seq<u8>, PackageError>(PackageError::NotFound),
        second.wf(),
        r2 == first@.read(name),
{
}

} // verus!
