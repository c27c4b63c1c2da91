//! Mounting a container and reading its entries.

use vstd::prelude::*;
use vstd::hash_map::StringHashMap;
use vstd::utf8::valid_utf8;
use crate::cursor::ByteCursor;
use crate::entry::{
    entry_name, entry_payload, entry_views, read_entries_at, EntryView, PackageEntry,
};
use crate::error::{FormatError, PackageError};
use crate::header::{read_header, PackageHeader};
use crate::inflate::result_view;
use crate::text::{decode_text, str_from_utf8};
use crate::wire::ADAT_ENTRY_SIZE;

verus! {

/// The mathematical content of a mounted package: the byte image, its
/// header, and the index from logical names to records.
pub struct PackageView {
    pub source: Seq<u8>,
    pub header: PackageHeader,
    pub index: Map<Seq<char>, EntryView>,
}

/// Whether the name field of every record is valid UTF-8.
pub open spec fn names_valid(entries: Seq<EntryView>) -> bool {
    forall|i: int| 0 <= i < entries.len() ==> valid_utf8(#[trigger] entries[i].name)
}

/// The index over a table of contents: each record is entered under its
/// logical name, in the order of the table, so that of several records with
/// one name the last is kept.
pub open spec fn build_index(entries: Seq<EntryView>) -> Map<Seq<char>, EntryView>
    decreases entries.len(),
{
    if entries.len() == 0 {
        Map::empty()
    } else {
        build_index(entries.drop_last()).insert(
            entry_name(entries.last().name).unwrap(),
            entries.last(),
        )
    }
}

/// What mounting the byte image `source` yields. The checks come in this
/// order: the header is read and validated; the table of contents must hold
/// at least one record and end on a record boundary; every record must be
/// there in full; every name must be valid UTF-8.
pub open spec fn mount_spec(source: Seq<u8>) -> Result<PackageView, PackageError> {
    match read_header(source, 0) {
        Err(e) => Err(e),
        Ok(header) => if header.toc_length / ADAT_ENTRY_SIZE == 0 {
            Err(PackageError::Format(FormatError::EmptyTableOfContents))
        } else if header.toc_length % ADAT_ENTRY_SIZE != 0 {
            Err(
                PackageError::Format(
                    FormatError::MisalignedTableOfContents { toc_length: header.toc_length },
                ),
            )
        } else {
            match read_entries_at(
                source,
                header.toc_offset as u64,
                header.toc_length / ADAT_ENTRY_SIZE,
            ) {
                Err(e) => Err(e),
                Ok(entries) => if names_valid(entries) {
                    Ok(PackageView { source, header, index: build_index(entries) })
                } else {
                    Err(PackageError::Format(FormatError::InvalidEntryName))
                },
            }
        },
    }
}

impl PackageView {
    /// What reading the entry called `name` yields.
    pub open spec fn read(self, name: Seq<char>) -> Result<Seq<u8>, PackageError> {
        if self.index.contains_key(name) {
            entry_payload(self.source, self.index[name])
        } else {
            Err(PackageError::NotFound)
        }
    }

    /// What reading the entry called `name` as text yields.
    pub open spec fn read_text(self, name: Seq<char>) -> Result<Seq<char>, PackageError> {
        match self.read(name) {
            Ok(bytes) => match decode_text(bytes) {
                Some(text) => Ok(text),
                None => Err(PackageError::TextDecode),
            },
            Err(e) => Err(e),
        }
    }
}

/// The views of a sequence of strings, in the same order.
pub open spec fn name_views(names: Seq<String>) -> Seq<Seq<char>> {
    names.map_values(|s: String| s@)
}

/// The mathematical content of a result that carries a string.
pub open spec fn text_view(result: Result<String, PackageError>) -> Result<
    Seq<char>,
    PackageError,
> {
    match result {
        Ok(text) => Ok(text@),
        Err(e) => Err(e),
    }
}

/// A mounted container. It owns its byte source and holds the header and the
/// name index that were built from it when it was mounted; neither changes
/// afterwards.
pub struct Package {
    cursor: ByteCursor,
    header: PackageHeader,
    entries: StringHashMap<PackageEntry>,
    names: Vec<String>,
}

impl View for Package {
    type V = PackageView;

    closed spec fn view(&self) -> PackageView {
        PackageView {
            source: self.cursor.bytes(),
            header: self.header,
            index: self.entries@.map_values(|e: PackageEntry| e@),
        }
    }
}

impl Package {
    /// A package is what mounting its own source yields, and it lists each
    /// name of its index once.
    pub closed spec fn wf(&self) -> bool {
        &&& mount_spec(self.cursor.bytes()) == Ok::<PackageView, PackageError>(self@)
        &&& name_views(self.names@).no_duplicates()
        &&& name_views(self.names@).to_set() =~= self.entries@.dom()
    }

    /// How a read relates the package before it, the package after it and
    /// what it returned: the package is unchanged and well formed, and the
    /// result is a function of the package's content and the name alone.
    pub open spec fn reads(
        self,
        name: Seq<char>,
        after: Package,
        result: Result<Seq<u8>, PackageError>,
    ) -> bool {
        &&& after.wf()
        &&& after@ == self@
        &&& result == self@.read(name)
    }

    /// A well-formed package is what mounting its own source yields.
    pub proof fn lemma_mounted(self)
        requires
            self.wf(),
        ensures
            mount_spec(self@.source) == Ok::<PackageView, PackageError>(self@),
    {
    }

    /// Mounts the container that `cursor` holds: validates the header,
    /// reads the table of contents and builds the index. The cursor may
    /// stand anywhere; mounting starts at offset 0.
    #[verifier::loop_isolation(false)]
    pub fn mount_from_cursor(cursor: ByteCursor) -> (result: Result<Package, PackageError>)
        ensures
            match mount_spec(cursor.bytes()) {
                Ok(view) => result matches Ok(package) && package@ == view && package.wf(),
                Err(e) => result matches Err(err) && err == e,
            },
    {
        let mut cursor = cursor;
        cursor.seek(0);
        let header = match PackageHeader::read_package_header(&mut cursor) {
            Ok(header) => header,
            Err(e) => {
                return Err(e);
            },
        };
        let entry_count = header.toc_length / ADAT_ENTRY_SIZE;
        if entry_count == 0 {
            return Err(PackageError::Format(FormatError::EmptyTableOfContents));
        }
        if header.toc_length % ADAT_ENTRY_SIZE != 0 {
            return Err(
                PackageError::Format(
                    FormatError::MisalignedTableOfContents { toc_length: header.toc_length },
                ),
            );
        }
        cursor.seek(header.toc_offset as u64);
        let records = match PackageEntry::read_package_entries(&mut cursor, entry_count) {
            Ok(records) => records,
            Err(e) => {
                return Err(e);
            },
        };
        let ghost views = entry_views(records@);
        let mut entries: StringHashMap<PackageEntry> = StringHashMap::new();
        let mut names: Vec<String> = Vec::new();
        let mut i: usize = 0;
        while i < records.len()
            invariant
                i <= records@.len(),
                views == entry_views(records@),
                names_valid(views.take(i as int)),
                entries@.map_values(|e: PackageEntry| e@) =~= build_index(views.take(i as int)),
                name_views(names@).no_duplicates(),
                name_views(names@).to_set() =~= entries@.dom(),
            decreases records@.len() - i,
        {
            let entry = records[i];
            let ghost before = entries@;
            let ghost names_before = names@;
            assert(views.take(i + 1).drop_last() =~= views.take(i as int));
            assert(views.take(i + 1).last() == entry@);
            match entry.get_name() {
                Ok(name) => {
                    let key = name.to_owned();
                    if !entries.contains_key(name) {
                        names.push(key.clone());
                        proof {
                            lemma_push_name(names_before, key, before.dom());
                        }
                    }
                    entries.insert(key, entry);
                    assert(entries@.map_values(|e: PackageEntry| e@) =~= before.map_values(
                        |e: PackageEntry| e@,
                    ).insert(name@, entry@));
                    assert(name_views(names@).to_set() =~= entries@.dom());
                    assert forall|j: int| 0 <= j < i + 1 implies valid_utf8(
                        #[trigger] views.take(i + 1)[j].name,
                    ) by {
                        if j < i {
                            assert(views.take(i + 1)[j] == views.take(i as int)[j]);
                        }
                    }
                },
                Err(e) => {
                    proof {
                        assert(views[i as int] == entry@);
                        assert(!valid_utf8(views[i as int].name));
                        assert(!names_valid(views));
                    }
                    return Err(e);
                },
            }
            i += 1;
        }
        assert(views.take(i as int) =~= views);
        Ok(Package { cursor, header, entries, names })
    }

    /// The header that was validated when the package was mounted.
    pub fn header(&self) -> (header: PackageHeader)
        ensures
            header == self@.header,
    {
        self.header
    }

    /// The names of all entries, each once, in no particular order.
    pub fn list_entries(&self) -> (names: Vec<String>)
        requires
            self.wf(),
        ensures
            name_views(names@).no_duplicates(),
            name_views(names@).to_set() == self@.index.dom(),
    {
        let mut names: Vec<String> = Vec::new();
        let mut i: usize = 0;
        while i < self.names.len()
            invariant
                i <= self.names@.len(),
                names@.len() == i,
                name_views(names@) =~= name_views(self.names@).take(i as int),
            decreases self.names@.len() - i,
        {
            names.push(self.names[i].clone());
            i += 1;
        }
        assert(name_views(self.names@).take(i as int) =~= name_views(self.names@));
        assert(self@.index.dom() =~= self.entries@.dom());
        names
    }

    /// Looks `entry_path` up in the index, reads the stored payload of the
    /// entry and inflates it. Nothing is cached and the package is the same
    /// afterwards, whatever the outcome.
    pub fn read_entry(&mut self, entry_path: &str) -> (result: Result<Vec<u8>, PackageError>)
        requires
            old(self).wf(),
        ensures
            old(self).reads(entry_path@, *final(self), result_view(result)),
            result matches Ok(bytes) ==> bytes@.len() == old(self)@.index[entry_path@].length,
    {
        let entry = match self.entries.get(entry_path) {
            Some(entry) => *entry,
            None => {
                return Err(PackageError::NotFound);
            },
        };
        entry.read_entry(&mut self.cursor)
    }

    /// Reads an entry and decodes it as UTF-8 text.
    pub fn read_text_entry(&mut self, entry_path: &str) -> (result: Result<String, PackageError>)
        requires
            old(self).wf(),
        ensures
            final(self)@ == old(self)@,
            final(self).wf(),
            text_view(result) == old(self)@.read_text(entry_path@),
    {
        let bytes = match self.read_entry(entry_path) {
            Ok(bytes) => bytes,
            Err(e) => {
                return Err(e);
            },
        };
        match str_from_utf8(bytes.as_slice()) {
            Some(text) => {
                proof {
                    vstd::utf8::encode_utf8_decode_utf8(text@);
                }
                Ok(text.to_owned())
            },
            None => Err(PackageError::TextDecode),
        }
    }
}

/// Appending a name that is not yet listed keeps the list free of
/// duplicates and adds the name to the set it stands for.
proof fn lemma_push_name(names: Seq<String>, key: String, listed: Set<Seq<char>>)
    requires
        name_views(names).no_duplicates(),
        name_views(names).to_set() =~= listed,
        !listed.contains(key@),
    ensures
        name_views(names.push(key)).no_duplicates(),
        name_views(names.push(key)).to_set() =~= listed.insert(key@),
{
    let old_views = name_views(names);
    let new_views = name_views(names.push(key));
    assert(new_views =~= old_views.push(key@));
    old_views.lemma_push_to_set_commute(key@);
    assert forall|i: int, j: int|
        0 <= i < new_views.len() && 0 <= j < new_views.len() && i != j implies new_views[i]
        != new_views[j] by {
        if i < old_views.len() {
            assert(old_views.to_set().contains(old_views[i]));
        }
        if j < old_views.len() {
            assert(old_views.to_set().contains(old_views[j]));
        }
    }
}

} // verus!
