//! Packing a workspace into an archive, unpacking an archive into a
//! workspace, and filling a fresh workspace from the bundled default project.

use vstd::prelude::*;
use crate::archive::archive_entries;
use crate::archive::archive_entry;
use crate::archive::archive_holds;
use crate::archive::archive_len;
use crate::archive::archive_open;
use crate::archive::archive_size;
use crate::archive::bytes_view;
use crate::archive::file_view;
use crate::archive::fits_archive;
use crate::archive::holds_name;
use crate::archive::name_bytes;
use crate::archive::stored;
use crate::archive::writer_add;
use crate::archive::writer_entries;
use crate::archive::writer_finish;
use crate::archive::writer_new;
use crate::archive::zip_image;
use crate::archive::zip_parse;
use crate::archive::EntryView;
use crate::archive::Storage;
use crate::archive::ARCHIVE_BASE_BYTES;
use crate::archive::ENTRY_HEADER_BYTES;
use crate::archive::MAX_ARCHIVE_BYTES;
use crate::archive::MAX_ENTRIES;
use crate::archive::MAX_ENTRY_NAME_BYTES;
use crate::json::json_pretty;
use crate::json::pretty_json;
use crate::json::reads_json;
use crate::names::is_excluded;
use crate::names::is_excluded_name;
use crate::names::is_flat;
use crate::names::is_flat_name;
use crate::names::is_manifest;
use crate::names::is_manifest_name;
use crate::names::lemma_manifest_name_is_kept;
use crate::names::MANIFEST_NAME;
use crate::snapshot::content_of;
use crate::snapshot::has_name;
use crate::snapshot::with_file;
use crate::snapshot::written;
use crate::snapshot::FileView;
use crate::snapshot::Workspace;
use crate::snapshot::WorkspaceFile;

verus! {

/// The bytes are one JSON document. They are read strictly: bytes that are
/// not UTF-8 are not JSON.
pub open spec fn is_json(content: Seq<u8>) -> bool {
    json_pretty(content) is Some
}

/// The workspace holds a manifest whose bytes are not JSON.
pub open spec fn manifest_broken(files: Seq<FileView>) -> bool {
    exists|i: int|
        #![trigger files[i]]
        0 <= i < files.len() && is_manifest_name(files[i].name) && !is_json(files[i].content)
}

/// Whether packing takes a file into an archive that holds `held` so far.
/// It takes every file that is not excluded, as long as the name fits a zip
/// header, the archive with the file in it stays within the ordinary form,
/// and no entry of that name is there yet.
pub open spec fn takes(held: Seq<EntryView>, file: FileView) -> bool {
    &&& !is_excluded_name(file.name)
    &&& name_bytes(file.name) <= MAX_ENTRY_NAME_BYTES
    &&& fits_archive(held.push(stored(file)))
    &&& !holds_name(held, file.name)
}

/// The entries of the archive that packing builds: the files that it takes,
/// in listing order, every one of them stored uncompressed.
pub open spec fn packed(files: Seq<FileView>) -> Seq<EntryView>
    decreases files.len(),
{
    if files.len() == 0 {
        Seq::empty()
    } else {
        let held = packed(files.drop_last());
        if takes(held, files.last()) {
            held.push(stored(files.last()))
        } else {
            held
        }
    }
}

/// The names of the files that packing would have to put into the archive
/// and does not: files that are not excluded and that it does not take.
pub open spec fn left_out(files: Seq<FileView>) -> Seq<Seq<char>>
    decreases files.len(),
{
    if files.len() == 0 {
        Seq::empty()
    } else {
        let before = left_out(files.drop_last());
        let file = files.last();
        if !is_excluded_name(file.name) && !takes(packed(files.drop_last()), file) {
            before.push(file.name)
        } else {
            before
        }
    }
}

/// What packing returns: nothing at all for a broken manifest, else the
/// finished archive of the packed entries.
pub open spec fn pack_image(files: Seq<FileView>) -> Option<Seq<u8>> {
    if manifest_broken(files) {
        None
    } else {
        Some(zip_image(packed(files)))
    }
}

/// The text of each string.
pub open spec fn texts(names: Seq<String>) -> Seq<Seq<char>> {
    names.map_values(|s: String| s@)
}

/// Every packed entry is stored uncompressed.
pub proof fn lemma_packed_entries_stored(files: Seq<FileView>)
    ensures
        forall|k: int|
            #![trigger packed(files)[k]]
            0 <= k < packed(files).len() ==> packed(files)[k].method == Some(Storage::Stored),
    decreases files.len(),
{
    if files.len() > 0 {
        lemma_packed_entries_stored(files.drop_last());
    }
}

/// What packing made of a workspace.
pub struct Packed {
    /// The archive, or `None` where the manifest is not valid JSON.
    pub archive: Option<Vec<u8>>,
    /// Names of the files that should be in the archive and are not.
    pub left_out: Vec<String>,
}

/// Packs the workspace into archive bytes, every entry stored uncompressed,
/// and reports the files that did not get in.
///
/// Files named `*.md` are excluded; they are neither packed nor reported. A
/// manifest that is not valid JSON stops the whole operation: there is no
/// archive, not even a partial one, and nothing is reported. Every other
/// file is packed, unless its name is too long for a zip header or the
/// archive would outgrow the ordinary zip form; such a file is left out,
/// its name is reported, and packing goes on.
pub fn pack_workspace(workspace: &Workspace) -> (report: Packed)
    ensures
        bytes_view(report.archive) == pack_image(workspace@),
        report.archive is None <==> manifest_broken(workspace@),
        report.archive matches Some(bytes) ==> archive_holds(bytes@, packed(workspace@)),
        texts(report.left_out@) == if manifest_broken(workspace@) {
            Seq::empty()
        } else {
            left_out(workspace@)
        },
{
    let mut writer = writer_new();
    let mut left: Vec<String> = Vec::new();
    let mut used: u64 = ARCHIVE_BASE_BYTES;
    let mut count: usize = 0;
    let n = workspace.len();
    let mut i: usize = 0;
    assert(workspace@.take(0) =~= Seq::<FileView>::empty());
    assert(texts(left@) =~= left_out(workspace@.take(0)));
    while i < n
        invariant
            i <= n,
            n == workspace@.len(),
            writer_entries(writer) == packed(workspace@.take(i as int)),
            texts(left@) == left_out(workspace@.take(i as int)),
            used == archive_size(writer_entries(writer)),
            count == writer_entries(writer).len(),
            fits_archive(writer_entries(writer)),
            forall|j: int|
                #![trigger workspace@[j]]
                0 <= j < i ==> !(is_manifest_name(workspace@[j].name) && !is_json(
                    workspace@[j].content,
                )),
        decreases n - i,
    {
        let file = workspace.file(i);
        let name = file.name.as_str();
        let ghost held = writer_entries(writer);
        proof {
            let upto = workspace@.take(i + 1);
            assert(upto.drop_last() =~= workspace@.take(i as int));
            assert(upto.last() == file@);
            assert(held.push(stored(file@)).drop_last() =~= held);
            lemma_manifest_name_is_kept();
        }
        if !is_excluded(name) {
            if is_manifest(name) && !reads_json(file.content.as_slice()) {
                return Packed { archive: None, left_out: Vec::new() };
            }
            let name_len = name.as_bytes().len();
            let content_len = file.content.len() as u64;
            let mut taken = false;
            if name_len <= MAX_ENTRY_NAME_BYTES && count < MAX_ENTRIES && content_len
                <= MAX_ARCHIVE_BYTES {
                let cost = ENTRY_HEADER_BYTES + 2 * (name_len as u64) + content_len;
                if cost <= MAX_ARCHIVE_BYTES - used {
                    taken = writer_add(&mut writer, name, file.content.as_slice(), Storage::Stored);
                    if taken {
                        used = used + cost;
                        count = count + 1;
                    }
                }
            }
            if !taken {
                let ghost earlier = left@;
                left.push(file.name.clone());
                assert(texts(left@) =~= texts(earlier).push(file@.name));
            }
        }
        i += 1;
    }
    assert(workspace@.take(n as int) =~= workspace@);
    Packed { archive: writer_finish(writer), left_out: left }
}

/// Packs the workspace into archive bytes, every entry stored uncompressed.
///
/// Files named `*.md` are left out. A manifest that is not valid JSON stops
/// the whole operation: the answer is `None` and no partial archive exists.
/// In every other case there is an archive. A file whose name is too long
/// for a zip header, or with which the archive would outgrow the ordinary
/// zip form, is left out and packing goes on; `pack_workspace` reports such
/// files.
pub fn build_sb3(workspace: &Workspace) -> (archive: Option<Vec<u8>>)
    ensures
        bytes_view(archive) == pack_image(workspace@),
        archive is None <==> manifest_broken(workspace@),
        archive matches Some(bytes) ==> archive_holds(bytes@, packed(workspace@)),
        forall|k: int|
            #![trigger packed(workspace@)[k]]
            0 <= k < packed(workspace@).len() ==> packed(workspace@)[k].method == Some(
                Storage::Stored,
            ),
{
    proof {
        lemma_packed_entries_stored(workspace@);
    }
    pack_workspace(workspace).archive
}

/// Unpacking writes an entry only under a flat name that is not excluded.
/// Directory entries, nested paths, absolute paths and `..` all fail this.
pub open spec fn is_unpackable(name: Seq<char>) -> bool {
    is_flat_name(name) && !is_excluded_name(name)
}

/// The bytes that unpacking writes for an entry: a manifest that parses is
/// written indented, everything else as it is.
pub open spec fn unpacked_content(name: Seq<char>, content: Seq<u8>) -> Seq<u8> {
    if is_manifest_name(name) {
        match json_pretty(content) {
            Some(pretty) => pretty,
            None => content,
        }
    } else {
        content
    }
}

/// The file that unpacking writes for one entry of an archive, if any. The
/// method that the archive held the entry with plays no part.
pub open spec fn unpacked(entry: Option<EntryView>) -> Option<FileView> {
    match entry {
        Some(e) => if is_unpackable(e.name) {
            Some(FileView { name: e.name, content: unpacked_content(e.name, e.content) })
        } else {
            None
        },
        None => None,
    }
}

/// A file as an archive entry, whatever the method.
pub open spec fn as_entry(file: FileView) -> EntryView {
    EntryView { name: file.name, content: file.content, method: None }
}

/// The writes that an archive asks for, in entry order.
pub open spec fn unpack_plan(entries: Seq<Option<EntryView>>) -> Seq<FileView>
    decreases entries.len(),
{
    if entries.len() == 0 {
        Seq::empty()
    } else {
        let before = unpack_plan(entries.drop_last());
        match unpacked(entries.last()) {
            Some(file) => before.push(file),
            None => before,
        }
    }
}

/// The workspace after unpacking `data` into it. Bytes that do not open as
/// an archive change nothing.
pub open spec fn extracted(files: Seq<FileView>, data: Seq<u8>) -> Seq<FileView> {
    match zip_parse(data) {
        Some(entries) => written(files, unpack_plan(entries)),
        None => files,
    }
}

/// The names that unpacking `data` writes, in the order of the writes.
pub open spec fn extracted_names(data: Seq<u8>) -> Seq<Seq<char>> {
    match zip_parse(data) {
        Some(entries) => unpack_plan(entries).map_values(|f: FileView| f.name),
        None => Seq::empty(),
    }
}

/// The content to write for a manifest entry, given what the JSON printer
/// made of it: the printer's text, or the raw bytes where it made nothing.
pub fn manifest_content(raw: Vec<u8>, pretty: Option<Vec<u8>>) -> (content: Vec<u8>)
    ensures
        content@ == match pretty {
            Some(text) => text@,
            None => raw@,
        },
{
    match pretty {
        Some(text) => text,
        None => raw,
    }
}

/// Decides what unpacking does with one readable entry of an archive.
pub fn unpack_entry(entry: WorkspaceFile) -> (file: Option<WorkspaceFile>)
    ensures
        file_view(file) == unpacked(Some(as_entry(entry@))),
{
    let name = entry.name.as_str();
    if !is_flat(name) || is_excluded(name) {
        return None;
    }
    if is_manifest(name) {
        let pretty = pretty_json(entry.content.as_slice());
        let WorkspaceFile { name, content } = entry;
        Some(WorkspaceFile { name, content: manifest_content(content, pretty) })
    } else {
        Some(entry)
    }
}

/// Unpacks archive bytes into the workspace and reports the names written.
///
/// Entries are written in archive order, later ones over earlier ones of the
/// same name. Files that the archive does not mention stay as they are:
/// unpacking adds and overwrites, it never deletes. Directory entries,
/// entries that cannot be read, names with path syntax and `*.md` names are
/// passed over. Bytes that are no zip container leave the workspace untouched.
pub fn extract_sb3(workspace: &mut Workspace, data: &[u8]) -> (names: Vec<String>)
    requires
        old(workspace).wf(),
    ensures
        final(workspace).wf(),
        final(workspace)@ == extracted(old(workspace)@, data@),
        texts(names@) == extracted_names(data@),
{
    let mut names: Vec<String> = Vec::new();
    let ghost before = workspace@;
    let mut archive = match archive_open(data) {
        Some(archive) => archive,
        None => {
            return names;
        },
    };
    let ghost entries = archive_entries(archive);
    let n = archive_len(&archive);
    let mut i: usize = 0;
    while i < n
        invariant
            i <= n,
            n == entries.len(),
            archive_entries(archive) == entries,
            workspace.wf(),
            workspace@ == written(before, unpack_plan(entries.take(i as int))),
            texts(names@) == unpack_plan(entries.take(i as int)).map_values(|f: FileView| f.name),
        decreases n - i,
    {
        let ghost plan = unpack_plan(entries.take(i as int));
        proof {
            let upto = entries.take(i + 1);
            assert(upto.drop_last() =~= entries.take(i as int));
        }
        match archive_entry(&mut archive, i) {
            Some(entry) => {
                match unpack_entry(entry.file) {
                    Some(file) => {
                        proof {
                            let next = plan.push(file@);
                            assert(next.drop_last() =~= plan);
                            assert(next.map_values(|f: FileView| f.name) =~= plan.map_values(
                                |f: FileView| f.name,
                            ).push(file@.name));
                        }
                        names.push(file.name.clone());
                        workspace.write(file);
                    },
                    None => {},
                }
            },
            None => {},
        }
        i += 1;
    }
    assert(entries.take(n as int) =~= entries);
    names
}

/// The files of an optional workspace.
pub open spec fn listing_of(workspace: Option<&Workspace>) -> Option<Seq<FileView>> {
    match workspace {
        Some(w) => Some(w@),
        None => None,
    }
}

/// The workspace after the first-run bootstrap. A workspace that has a
/// manifest is left alone; one without takes over every file of the default
/// project, where there is one.
pub open spec fn bootstrapped(files: Seq<FileView>, defaults: Option<Seq<FileView>>) -> Seq<
    FileView,
> {
    if has_name(files, MANIFEST_NAME@) {
        files
    } else {
        match defaults {
            Some(d) => written(files, d),
            None => files,
        }
    }
}

/// The names that the bootstrap copies, in order.
pub open spec fn bootstrap_names(files: Seq<FileView>, defaults: Option<Seq<FileView>>) -> Seq<
    Seq<char>,
> {
    if has_name(files, MANIFEST_NAME@) {
        Seq::empty()
    } else {
        match defaults {
            Some(d) => d.map_values(|f: FileView| f.name),
            None => Seq::empty(),
        }
    }
}

/// Fills a workspace that has no manifest from the bundled default project
/// and reports the names copied. With a manifest present nothing happens, so
/// an existing project is never overwritten. `default_project` is `None`
/// where the bundle is missing; the workspace then stays as it is.
pub fn ensure_default_project(workspace: &mut Workspace, default_project: Option<&Workspace>) -> (copied:
    Vec<String>)
    requires
        old(workspace).wf(),
        default_project matches Some(d) ==> d.wf(),
    ensures
        final(workspace).wf(),
        final(workspace)@ == bootstrapped(old(workspace)@, listing_of(default_project)),
        texts(copied@) == bootstrap_names(old(workspace)@, listing_of(default_project)),
{
    let mut copied: Vec<String> = Vec::new();
    if workspace.contains(MANIFEST_NAME) {
        return copied;
    }
    let defaults = match default_project {
        Some(defaults) => defaults,
        None => {
            return copied;
        },
    };
    let ghost before = workspace@;
    let n = defaults.len();
    let mut i: usize = 0;
    while i < n
        invariant
            i <= n,
            n == defaults@.len(),
            defaults.wf(),
            workspace.wf(),
            workspace@ == written(before, defaults@.take(i as int)),
            texts(copied@) == defaults@.take(i as int).map_values(|f: FileView| f.name),
        decreases n - i,
    {
        let file = defaults.file(i).duplicate();
        proof {
            let upto = defaults@.take(i + 1);
            assert(upto.drop_last() =~= defaults@.take(i as int));
            assert(upto.map_values(|f: FileView| f.name) =~= defaults@.take(i as int).map_values(
                |f: FileView| f.name,
            ).push(file@.name));
        }
        copied.push(file.name.clone());
        workspace.write(file);
        i += 1;
    }
    assert(defaults@.take(n as int) =~= defaults@);
    copied
}

/// The workspace after the guidance notes were refreshed from the default
/// project: the file of that name is replaced or added where the default
/// project has one and the name is flat, and nothing else changes.
pub open spec fn with_guide(files: Seq<FileView>, defaults: Option<Seq<FileView>>, name: Seq<char>) -> Seq<
    FileView,
> {
    match defaults {
        Some(d) => match content_of(d, name) {
            Some(content) => with_file(files, FileView { name, content }),
            None => files,
        },
        None => files,
    }
}

/// Copies the guidance notes of the default project, the file called
/// `guide_name`, into the workspace, over any copy that is there, so that
/// the copy stays current even where the project itself is kept. Says
/// whether there was such a file to copy.
pub fn ensure_claude_md(
    workspace: &mut Workspace,
    default_project: Option<&Workspace>,
    guide_name: &str,
) -> (copied: bool)
    requires
        old(workspace).wf(),
        default_project matches Some(d) ==> d.wf(),
    ensures
        final(workspace).wf(),
        final(workspace)@ == with_guide(
            old(workspace)@,
            listing_of(default_project),
            guide_name@,
        ),
        copied == (default_project matches Some(d) && has_name(d@, guide_name@)),
{
    let defaults = match default_project {
        Some(defaults) => defaults,
        None => {
            return false;
        },
    };
    match defaults.position(guide_name) {
        Some(i) => {
            workspace.write(defaults.file(i).duplicate());
            true
        },
        None => false,
    }
}

} // verus!
