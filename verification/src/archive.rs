//! The zip container, as far as the engine uses it: a writer that collects
//! entries and a reader that hands them back. Everything in this file is a
//! statement about the `zip` crate that the verifier takes on trust.

use std::io::Cursor;
use std::io::Read;
use std::io::Write;
use vstd::prelude::*;
use crate::snapshot::FileView;
use crate::snapshot::WorkspaceFile;
use zip::write::SimpleFileOptions;
use zip::CompressionMethod;
use zip::ZipArchive;
use zip::ZipWriter;

verus! {

/// `std::io::Cursor`, carried through unseen.
#[verifier::external_type_specification]
#[verifier::external_body]
#[verifier::reject_recursive_types(T)]
pub struct ExCursor<T>(Cursor<T>);

/// `zip::ZipArchive`, carried through unseen; `archive_entries` names what
/// one holds.
#[verifier::external_type_specification]
#[verifier::external_body]
#[verifier::reject_recursive_types(R)]
pub struct ExZipArchive<R>(ZipArchive<R>);

/// An in-memory `zip::ZipWriter`. The verifier cannot take that type's own
/// declaration, whose bounds name traits it does not know, so the writer is
/// held here, unseen.
#[verifier::external_body]
pub struct ArchiveWriter {
    inner: ZipWriter<Cursor<Vec<u8>>>,
}

/// How the bytes of an entry lie in the archive.
#[derive(Clone, Copy, Debug, PartialEq, Eq, Structural)]
pub enum Storage {
    /// As they are, uncompressed.
    Stored,
    /// Compressed with deflate.
    Deflated,
}

/// The mathematical view of an archive entry: its name, its bytes as they
/// read once unpacked, and the method they are held with (`None` for a
/// method other than the two the engine knows).
pub struct EntryView {
    pub name: Seq<char>,
    pub content: Seq<u8>,
    pub method: Option<Storage>,
}

/// An entry read from an archive.
#[derive(Debug, PartialEq, Eq)]
pub struct ArchiveEntry {
    pub file: WorkspaceFile,
    pub method: Option<Storage>,
}

impl View for ArchiveEntry {
    type V = EntryView;

    open spec fn view(&self) -> EntryView {
        EntryView { name: self.file.name@, content: self.file.content@, method: self.method }
    }
}

/// The entry that holds a file uncompressed.
pub open spec fn stored(file: FileView) -> EntryView {
    EntryView { name: file.name, content: file.content, method: Some(Storage::Stored) }
}

/// The longest entry name, in bytes, that a zip header can carry.
pub const MAX_ENTRY_NAME_BYTES: usize = 65535;

/// The most entries that the engine puts into one archive. One more and the
/// count field of the end record would hold the value that marks the large
/// (zip64) form.
pub const MAX_ENTRIES: usize = 65534;

/// The most bytes of an archive that the engine builds. Beyond it offsets
/// and sizes no longer fit the fields of the ordinary form.
pub const MAX_ARCHIVE_BYTES: u64 = 0xFFFF_FFFF;

/// Bytes that an archive spends outside its entries: the end record.
pub const ARCHIVE_BASE_BYTES: u64 = 22;

/// Bytes that a stored entry spends besides its name, written twice, and its
/// content: the local header and the central header.
pub const ENTRY_HEADER_BYTES: u64 = 76;

/// The number of bytes of the name in UTF-8.
pub open spec fn name_bytes(name: Seq<char>) -> nat {
    vstd::utf8::encode_utf8(name).len()
}

/// The bytes that one stored entry adds to an archive.
pub open spec fn entry_cost(entry: EntryView) -> nat {
    ENTRY_HEADER_BYTES as nat + 2 * name_bytes(entry.name) + entry.content.len()
}

/// The length of the archive that holds these entries, all stored.
pub open spec fn archive_size(entries: Seq<EntryView>) -> nat
    decreases entries.len(),
{
    if entries.len() == 0 {
        ARCHIVE_BASE_BYTES as nat
    } else {
        archive_size(entries.drop_last()) + entry_cost(entries.last())
    }
}

/// The entries fit an archive of the ordinary form.
pub open spec fn fits_archive(entries: Seq<EntryView>) -> bool {
    entries.len() <= MAX_ENTRIES && archive_size(entries) <= MAX_ARCHIVE_BYTES
}

/// Some entry carries this name.
pub open spec fn holds_name(entries: Seq<EntryView>, name: Seq<char>) -> bool {
    exists|i: int| #![trigger entries[i]] 0 <= i < entries.len() && entries[i].name == name
}

/// The entries an in-memory writer holds, in the order they were added.
pub uninterp spec fn writer_entries(writer: ArchiveWriter) -> Seq<EntryView>;

/// The bytes of the finished archive for a writer that holds `entries`. The
/// `zip` crate is built without its `time` feature, so every entry carries
/// the same fixed timestamp and the bytes depend on the entries alone.
pub uninterp spec fn zip_image(entries: Seq<EntryView>) -> Seq<u8>;

/// What `bytes` hold when opened as a zip container: `None` where they do not
/// open, else one item per entry, `None` for an entry that cannot be read.
pub uninterp spec fn zip_parse(bytes: Seq<u8>) -> Option<Seq<Option<EntryView>>>;

/// The entries of an opened archive, by index.
pub uninterp spec fn archive_entries(archive: ZipArchive<Cursor<&[u8]>>) -> Seq<Option<EntryView>>;

/// The view of an entry that may be absent.
pub open spec fn entry_view(entry: Option<ArchiveEntry>) -> Option<EntryView> {
    match entry {
        Some(e) => Some(e@),
        None => None,
    }
}

/// The view of a file that may be absent.
pub open spec fn file_view(file: Option<WorkspaceFile>) -> Option<FileView> {
    match file {
        Some(f) => Some(f@),
        None => None,
    }
}

/// The view of bytes that may be absent.
pub open spec fn bytes_view(bytes: Option<Vec<u8>>) -> Option<Seq<u8>> {
    match bytes {
        Some(b) => Some(b@),
        None => None,
    }
}

/// `bytes` open as an archive whose entries are all readable and are exactly
/// `entries`, in order.
pub open spec fn archive_holds(bytes: Seq<u8>, entries: Seq<EntryView>) -> bool {
    zip_parse(bytes) == Some(entries.map_values(|e: EntryView| Some(e)))
}

/// `ZipWriter::new` over an empty in-memory buffer: the writer holds nothing.
#[verifier::external_body]
pub(crate) fn writer_new() -> (writer: ArchiveWriter)
    ensures
        writer_entries(writer) == Seq::<EntryView>::empty(),
{
    ArchiveWriter { inner: ZipWriter::new(Cursor::new(Vec::new())) }
}

/// `ZipWriter::start_file` with the given method, then `write_all` of the
/// content. The contract is stated for the stored method and for an archive
/// that stays within the ordinary form. There the writer works in memory
/// and refuses one thing only, a name that it already holds; a refusal
/// leaves it as it was. Kept out are a name longer than the header allows,
/// on which `start_file` panics, and sizes on which a write fails half-way.
#[verifier::external_body]
pub(crate) fn writer_add(
    writer: &mut ArchiveWriter,
    name: &str,
    content: &[u8],
    method: Storage,
) -> (added: bool)
    requires
        method == Storage::Stored,
        name_bytes(name@) <= MAX_ENTRY_NAME_BYTES,
        fits_archive(
            writer_entries(*old(writer)).push(
                EntryView { name: name@, content: content@, method: Some(method) },
            ),
        ),
    ensures
        added == !holds_name(writer_entries(*old(writer)), name@),
        writer_entries(*final(writer)) == if added {
            writer_entries(*old(writer)).push(
                EntryView { name: name@, content: content@, method: Some(method) },
            )
        } else {
            writer_entries(*old(writer))
        },
{
    let method = match method {
        Storage::Stored => CompressionMethod::Stored,
        Storage::Deflated => CompressionMethod::Deflated,
    };
    let options = SimpleFileOptions::default().compression_method(method);
    match writer.inner.start_file(name, options) {
        Ok(()) => writer.inner.write_all(content).is_ok(),
        Err(_) => false,
    }
}

/// `ZipWriter::finish`, for a writer whose entries fit the ordinary form:
/// finishing in memory succeeds, the bytes depend on the entries alone, and
/// they read back as those entries. With 65535 entries or with 4 GiB the
/// reader would look for the records of the large form, and a name or an
/// offset can then mislead it; both are kept out.
#[verifier::external_body]
pub(crate) fn writer_finish(writer: ArchiveWriter) -> (archive: Option<Vec<u8>>)
    requires
        fits_archive(writer_entries(writer)),
    ensures
        archive is Some,
        archive matches Some(bytes) ==> bytes@ == zip_image(writer_entries(writer)),
        archive matches Some(bytes) ==> archive_holds(bytes@, writer_entries(writer)),
{
    match writer.inner.finish() {
        Ok(cursor) => Some(cursor.into_inner()),
        Err(_) => None,
    }
}

/// `ZipArchive::new` over the bytes: it opens exactly where `zip_parse` says
/// so, and then holds the entries that `zip_parse` names.
#[verifier::external_body]
pub(crate) fn archive_open<'a>(data: &'a [u8]) -> (archive: Option<ZipArchive<Cursor<&'a [u8]>>>)
    ensures
        match archive {
            Some(a) => zip_parse(data@) == Some(archive_entries(a)),
            None => zip_parse(data@) is None,
        },
{
    ZipArchive::new(Cursor::new(data)).ok()
}

/// `ZipArchive::len`: the number of entries.
#[verifier::external_body]
pub(crate) fn archive_len(archive: &ZipArchive<Cursor<&[u8]>>) -> (n: usize)
    ensures
        n == archive_entries(*archive).len(),
{
    archive.len()
}

/// `ZipArchive::by_index`, then the entry's `name`, `compression` and
/// `read_to_end`: the entry at `index` as plain values, `None` where it
/// cannot be had. Reading leaves the archive's entries as they were.
#[verifier::external_body]
pub(crate) fn archive_entry(archive: &mut ZipArchive<Cursor<&[u8]>>, index: usize) -> (entry: Option<ArchiveEntry>)
    ensures
        archive_entries(*final(archive)) == archive_entries(*old(archive)),
        index < archive_entries(*old(archive)).len() ==> entry_view(entry) == archive_entries(
            *old(archive),
        )[index as int],
        index >= archive_entries(*old(archive)).len() ==> entry is None,
{
    let mut file = archive.by_index(index).ok()?;
    let name = file.name().to_string();
    let method = match file.compression() {
        CompressionMethod::Stored => Some(Storage::Stored),
        CompressionMethod::Deflated => Some(Storage::Deflated),
        _ => None,
    };
    let mut content = Vec::new();
    file.read_to_end(&mut content).ok()?;
    Some(ArchiveEntry { file: WorkspaceFile { name, content }, method })
}

} // verus!
