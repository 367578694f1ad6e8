//! What holds of packing and unpacking taken together.

use vstd::prelude::*;
use crate::archive::archive_holds;
use crate::archive::archive_size;
use crate::archive::fits_archive;
use crate::archive::holds_name;
use crate::archive::name_bytes;
use crate::archive::stored;
use crate::archive::zip_parse;
use crate::archive::EntryView;
use crate::archive::Storage;
use crate::archive::MAX_ENTRY_NAME_BYTES;
use crate::names::is_directory_name;
use crate::names::is_excluded_name;
use crate::names::is_flat_name;
use crate::names::lemma_directory_name_not_flat;
use crate::names::lemma_flat_name_is_plain;
use crate::snapshot::content_of;
use crate::snapshot::has_name;
use crate::snapshot::index_of;
use crate::snapshot::is_listing;
use crate::snapshot::last_write;
use crate::snapshot::lemma_index_of_unique;
use crate::snapshot::lemma_last_write_absent;
use crate::snapshot::lemma_written_into_empty;
use crate::snapshot::lemma_written_lookup;
use crate::snapshot::lemma_written_twice;
use crate::snapshot::names_distinct;
use crate::snapshot::names_flat;
use crate::snapshot::names_plain;
use crate::snapshot::written;
use crate::snapshot::FileView;
use crate::workspace::extracted;
use crate::workspace::extracted_names;
use crate::workspace::is_unpackable;
use crate::workspace::left_out;
use crate::workspace::lemma_packed_entries_stored;
use crate::workspace::packed;
use crate::workspace::takes;
use crate::workspace::unpack_plan;
use crate::workspace::unpacked;
use crate::workspace::unpacked_content;

verus! {

/// The files that belong into the archive: all that are not excluded, in
/// listing order.
pub open spec fn kept(files: Seq<FileView>) -> Seq<FileView>
    decreases files.len(),
{
    if files.len() == 0 {
        Seq::empty()
    } else if !is_excluded_name(files.last().name) {
        kept(files.drop_last()).push(files.last())
    } else {
        kept(files.drop_last())
    }
}

/// The workspace fits an archive of the ordinary form as a whole: every
/// name that belongs into the archive fits a zip header, and the archive of
/// all the files that belong into it stays within the form's limits.
pub open spec fn whole_fits(files: Seq<FileView>) -> bool {
    &&& forall|i: int|
        #![trigger files[i]]
        0 <= i < files.len() && !is_excluded_name(files[i].name) ==> name_bytes(files[i].name)
            <= MAX_ENTRY_NAME_BYTES
    &&& fits_archive(kept(files).map_values(|f: FileView| stored(f)))
}

/// A packed entry as unpacking writes it: the manifest indented where it
/// parses, every other file byte for byte.
pub open spec fn restored(entry: EntryView) -> FileView {
    FileView { name: entry.name, content: unpacked_content(entry.name, entry.content) }
}

/// A file as it comes back from packing and unpacking.
pub open spec fn round_tripped(file: FileView) -> FileView {
    restored(stored(file))
}

/// Every packed entry holds, stored, a file of the workspace that is not
/// excluded, and no two entries share a name.
pub proof fn lemma_packed_from_workspace(files: Seq<FileView>)
    ensures
        forall|k: int|
            #![trigger packed(files)[k]]
            0 <= k < packed(files).len() ==> !is_excluded_name(packed(files)[k].name) && exists|
                j: int,
            |
                #![trigger files[j]]
                0 <= j < files.len() && stored(files[j]) == packed(files)[k],
        forall|a: int, b: int|
            #![trigger packed(files)[a], packed(files)[b]]
            0 <= a < b < packed(files).len() ==> packed(files)[a].name != packed(files)[b].name,
    decreases files.len(),
{
    if files.len() > 0 {
        let earlier = files.drop_last();
        let file = files.last();
        lemma_packed_from_workspace(earlier);
        let held = packed(earlier);
        let all = packed(files);
        assert forall|k: int| 0 <= k < all.len() implies !is_excluded_name((#[trigger] all[k]).name)
            && exists|j: int|
            #![trigger files[j]]
            0 <= j < files.len() && stored(files[j]) == all[k] by {
            if k < held.len() {
                assert(all[k] == held[k]);
                let j = choose|j: int|
                    #![trigger earlier[j]]
                    0 <= j < earlier.len() && stored(earlier[j]) == held[k];
                assert(files[j] == earlier[j]);
            } else {
                assert(files[files.len() - 1] == file);
            }
        }
        assert forall|a: int, b: int| 0 <= a < b < all.len() implies (#[trigger] all[a]).name != (
        #[trigger] all[b]).name by {
            if b < held.len() {
                assert(all[a] == held[a]);
                assert(all[b] == held[b]);
            } else {
                assert(all[a] == held[a]);
                assert(!holds_name(held, file.name));
            }
        }
    }
}

/// Where packing reports no file as left out, the archive holds every file
/// that belongs into it.
pub proof fn lemma_nothing_left_out(files: Seq<FileView>)
    requires
        left_out(files).len() == 0,
    ensures
        packed(files) == kept(files).map_values(|f: FileView| stored(f)),
    decreases files.len(),
{
    if files.len() > 0 {
        let earlier = files.drop_last();
        lemma_nothing_left_out(earlier);
        assert(packed(files) =~= kept(files).map_values(|f: FileView| stored(f)));
    } else {
        assert(packed(files) =~= kept(files).map_values(|f: FileView| stored(f)));
    }
}

/// The archive of a longer listing is no smaller and holds no fewer entries.
pub proof fn lemma_kept_grows(files: Seq<FileView>)
    requires
        files.len() > 0,
    ensures
        archive_size(kept(files.drop_last()).map_values(|f: FileView| stored(f))) <= archive_size(
            kept(files).map_values(|f: FileView| stored(f)),
        ),
        kept(files.drop_last()).len() <= kept(files).len(),
{
    let shorter = kept(files.drop_last()).map_values(|f: FileView| stored(f));
    let longer = kept(files).map_values(|f: FileView| stored(f));
    if !is_excluded_name(files.last().name) {
        assert(longer.drop_last() =~= shorter);
    }
}

/// A listing that fits an archive as a whole is packed as a whole: nothing
/// is left out.
pub proof fn lemma_room_for_all(files: Seq<FileView>)
    requires
        names_distinct(files),
        whole_fits(files),
    ensures
        left_out(files).len() == 0,
        packed(files) == kept(files).map_values(|f: FileView| stored(f)),
    decreases files.len(),
{
    if files.len() > 0 {
        let earlier = files.drop_last();
        let file = files.last();
        lemma_kept_grows(files);
        assert(names_distinct(earlier)) by {
            assert forall|i: int, j: int| 0 <= i < j < earlier.len() implies earlier[i].name
                != earlier[j].name by {
                assert(earlier[i] == files[i]);
                assert(earlier[j] == files[j]);
            }
        }
        assert(whole_fits(earlier)) by {
            assert forall|i: int|
                0 <= i < earlier.len() && !is_excluded_name(
                    (#[trigger] earlier[i]).name,
                ) implies name_bytes(earlier[i].name) <= MAX_ENTRY_NAME_BYTES by {
                assert(earlier[i] == files[i]);
            }
        }
        lemma_room_for_all(earlier);
        let held = packed(earlier);
        if !is_excluded_name(file.name) {
            assert(file == files[files.len() - 1]);
            assert(held.push(stored(file)) =~= kept(files).map_values(|f: FileView| stored(f)));
            lemma_packed_from_workspace(earlier);
            assert(!holds_name(held, file.name)) by {
                if holds_name(held, file.name) {
                    let k = choose|k: int|
                        #![trigger held[k]]
                        0 <= k < held.len() && held[k].name == file.name;
                    let j = choose|j: int|
                        #![trigger earlier[j]]
                        0 <= j < earlier.len() && stored(earlier[j]) == held[k];
                    assert(earlier[j] == files[j]);
                    assert(files[j].name != files[files.len() - 1].name);
                }
            }
            assert(takes(held, file));
        }
        lemma_nothing_left_out(files);
    } else {
        assert(packed(files) =~= kept(files).map_values(|f: FileView| stored(f)));
    }
}

/// The writes that an archive of readable, unpackable entries asks for are
/// those entries, restored.
pub proof fn lemma_plan_of_packed(entries: Seq<EntryView>)
    requires
        forall|k: int| #![trigger entries[k]] 0 <= k < entries.len() ==> is_unpackable(entries[k].name),
    ensures
        unpack_plan(entries.map_values(|e: EntryView| Some(e))) == entries.map_values(
            |e: EntryView| restored(e),
        ),
    decreases entries.len(),
{
    let readable = entries.map_values(|e: EntryView| Some(e));
    if entries.len() > 0 {
        let earlier = entries.drop_last();
        assert forall|k: int| 0 <= k < earlier.len() implies is_unpackable(
            (#[trigger] earlier[k]).name,
        ) by {
            assert(earlier[k] == entries[k]);
        }
        lemma_plan_of_packed(earlier);
        assert(readable.drop_last() =~= earlier.map_values(|e: EntryView| Some(e)));
        assert(readable.last() == Some(entries.last()));
        assert(entries.last() == entries[entries.len() - 1]);
        assert(earlier.map_values(|e: EntryView| restored(e)).push(restored(entries.last()))
            =~= entries.map_values(|e: EntryView| restored(e)));
    } else {
        assert(unpack_plan(readable) =~= entries.map_values(|e: EntryView| restored(e)));
    }
}

/// Round trip. Unpacking what packing made of a workspace, into an empty
/// workspace, gives the packed files back: the same names in the same order,
/// every file byte for byte, except that a manifest that parses as JSON
/// comes back indented. The names must be flat: a name with `\` or `:` in
/// it is packed where the platform allows such a file, and is passed over
/// by unpacking.
pub proof fn lemma_pack_then_unpack(files: Seq<FileView>, archive: Seq<u8>)
    requires
        names_flat(files),
        archive_holds(archive, packed(files)),
    ensures
        extracted(Seq::empty(), archive) == packed(files).map_values(|e: EntryView| restored(e)),
{
    let entries = packed(files);
    lemma_packed_from_workspace(files);
    assert forall|k: int| 0 <= k < entries.len() implies is_unpackable(
        (#[trigger] entries[k]).name,
    ) by {
        let j = choose|j: int|
            #![trigger files[j]]
            0 <= j < files.len() && stored(files[j]) == entries[k];
        assert(is_flat_name(files[j].name));
    }
    lemma_plan_of_packed(entries);
    let plan = entries.map_values(|e: EntryView| restored(e));
    assert(names_distinct(plan)) by {
        assert forall|i: int, j: int| 0 <= i < j < plan.len() implies plan[i].name
            != plan[j].name by {
            assert(plan[i].name == entries[i].name);
            assert(plan[j].name == entries[j].name);
        }
    }
    lemma_written_into_empty(plan);
}

/// Round trip of the whole workspace. Where packing left no file out, every
/// file that is not excluded comes back, under its name and at its place,
/// and nothing else does.
pub proof fn lemma_round_trip_restores_workspace(files: Seq<FileView>, archive: Seq<u8>)
    requires
        names_flat(files),
        archive_holds(archive, packed(files)),
        left_out(files).len() == 0,
    ensures
        extracted(Seq::empty(), archive) == kept(files).map_values(|f: FileView| round_tripped(f)),
{
    lemma_nothing_left_out(files);
    lemma_pack_then_unpack(files, archive);
    assert(packed(files).map_values(|e: EntryView| restored(e)) =~= kept(files).map_values(
        |f: FileView| round_tripped(f),
    ));
}

/// Every file of the workspace that is not excluded is among the kept ones,
/// and every kept file is such a file.
pub proof fn lemma_kept_exact(files: Seq<FileView>)
    ensures
        forall|j: int|
            #![trigger files[j]]
            0 <= j < files.len() && !is_excluded_name(files[j].name) ==> exists|k: int|
                #![trigger kept(files)[k]]
                0 <= k < kept(files).len() && kept(files)[k] == files[j],
        forall|k: int|
            #![trigger kept(files)[k]]
            0 <= k < kept(files).len() ==> !is_excluded_name(kept(files)[k].name) && exists|j: int|
                #![trigger files[j]]
                0 <= j < files.len() && files[j] == kept(files)[k],
    decreases files.len(),
{
    if files.len() > 0 {
        let earlier = files.drop_last();
        let file = files.last();
        lemma_kept_exact(earlier);
        let all = kept(files);
        let held = kept(earlier);
        assert forall|j: int|
            0 <= j < files.len() && !is_excluded_name((#[trigger] files[j]).name) implies exists|
            k: int,
        |
            #![trigger all[k]]
            0 <= k < all.len() && all[k] == files[j] by {
            if j < earlier.len() {
                assert(earlier[j] == files[j]);
                let k = choose|k: int|
                    #![trigger held[k]]
                    0 <= k < held.len() && held[k] == earlier[j];
                assert(all[k] == held[k]);
            } else {
                assert(all[all.len() - 1] == files[j]);
            }
        }
        assert forall|k: int| 0 <= k < all.len() implies !is_excluded_name((#[trigger] all[k]).name)
            && exists|j: int|
            #![trigger files[j]]
            0 <= j < files.len() && files[j] == all[k] by {
            if k < held.len() {
                assert(all[k] == held[k]);
                let j = choose|j: int|
                    #![trigger earlier[j]]
                    0 <= j < earlier.len() && earlier[j] == held[k];
                assert(files[j] == earlier[j]);
            } else {
                assert(files[files.len() - 1] == file);
            }
        }
    }
}

/// Round trip, name by name, where packing left no file out. After
/// unpacking into an empty workspace a name holds a file exactly where the
/// packed workspace held one under it that is not excluded, and it holds the
/// same bytes, except that a manifest that parses as JSON is indented.
pub proof fn lemma_round_trip_lookup(files: Seq<FileView>, archive: Seq<u8>, name: Seq<char>)
    requires
        names_distinct(files),
        names_flat(files),
        archive_holds(archive, packed(files)),
        left_out(files).len() == 0,
    ensures
        content_of(extracted(Seq::empty(), archive), name) == match content_of(files, name) {
            Some(content) => if is_excluded_name(name) {
                None
            } else {
                Some(unpacked_content(name, content))
            },
            None => None,
        },
{
    lemma_round_trip_restores_workspace(files, archive);
    lemma_nothing_left_out(files);
    lemma_packed_from_workspace(files);
    lemma_kept_exact(files);
    let all = kept(files);
    let after = all.map_values(|f: FileView| round_tripped(f));
    assert(names_distinct(after)) by {
        assert forall|a: int, b: int| 0 <= a < b < after.len() implies after[a].name
            != after[b].name by {
            assert(after[a].name == packed(files)[a].name);
            assert(after[b].name == packed(files)[b].name);
        }
    }
    if has_name(after, name) {
        let k = index_of(after, name);
        assert(0 <= k < after.len() && after[k].name == name);
        assert(after[k] == round_tripped(all[k]));
        let j = choose|j: int| #![trigger files[j]] 0 <= j < files.len() && files[j] == all[k];
        lemma_index_of_unique(files, j);
    } else if has_name(files, name) {
        let j = index_of(files, name);
        assert(0 <= j < files.len() && files[j].name == name);
        if !is_excluded_name(name) {
            let k = choose|k: int| #![trigger all[k]] 0 <= k < all.len() && all[k] == files[j];
            assert(after[k].name == name);
        }
    }
}

/// What unpacking leaves under a name: the bytes of the last entry written
/// to it, or, where the archive wrote nothing to it, what was there before.
pub proof fn lemma_unpack_lookup(files: Seq<FileView>, entries: Seq<Option<EntryView>>, name: Seq<
    char,
>)
    requires
        is_listing(files),
    ensures
        content_of(written(files, unpack_plan(entries)), name) == match last_write(
            unpack_plan(entries),
            name,
        ) {
            Some(content) => Some(content),
            None => content_of(files, name),
        },
{
    lemma_plan_names(entries);
    lemma_written_lookup(files, unpack_plan(entries), name);
}

/// Every write that unpacking plans goes to a flat name that is not excluded.
pub proof fn lemma_plan_names(entries: Seq<Option<EntryView>>)
    ensures
        forall|k: int|
            #![trigger unpack_plan(entries)[k]]
            0 <= k < unpack_plan(entries).len() ==> is_unpackable(unpack_plan(entries)[k].name),
        names_flat(unpack_plan(entries)),
        names_plain(unpack_plan(entries)),
    decreases entries.len(),
{
    let plan = unpack_plan(entries);
    if entries.len() > 0 {
        lemma_plan_names(entries.drop_last());
        let before = unpack_plan(entries.drop_last());
        assert forall|k: int| 0 <= k < plan.len() implies is_unpackable(
            (#[trigger] plan[k]).name,
        ) by {
            if k < before.len() {
                assert(plan[k] == before[k]);
            }
        }
    }
    assert forall|k: int| 0 <= k < plan.len() implies crate::names::is_plain_name(
        (#[trigger] plan[k]).name,
    ) by {
        lemma_flat_name_is_plain(plan[k].name);
    }
}

/// Idempotence. Unpacking the same archive a second time leaves the
/// workspace as the first unpacking left it: no file twice, none changed.
pub proof fn lemma_unpack_twice(files: Seq<FileView>, data: Seq<u8>)
    requires
        is_listing(files),
    ensures
        extracted(extracted(files, data), data) == extracted(files, data),
{
    match zip_parse(data) {
        Some(entries) => {
            lemma_plan_names(entries);
            lemma_written_twice(files, unpack_plan(entries));
        },
        None => {},
    }
}

/// Exclusion, packing. No entry of the archive that packing builds carries
/// a `*.md` name.
pub proof fn lemma_pack_leaves_out_excluded(files: Seq<FileView>)
    ensures
        forall|k: int|
            #![trigger packed(files)[k]]
            0 <= k < packed(files).len() ==> !is_excluded_name(packed(files)[k].name),
{
    lemma_packed_from_workspace(files);
}

/// The archive itself. Every entry of an archive that packing returned can
/// be read, is stored uncompressed, and carries no `*.md` name.
pub proof fn lemma_archive_entries(files: Seq<FileView>, archive: Seq<u8>)
    requires
        archive_holds(archive, packed(files)),
    ensures
        zip_parse(archive) matches Some(entries) && forall|k: int|
            #![trigger entries[k]]
            0 <= k < entries.len() ==> (entries[k] matches Some(entry) && !is_excluded_name(
                entry.name,
            ) && entry.method == Some(Storage::Stored)),
{
    lemma_packed_from_workspace(files);
    lemma_packed_entries_stored(files);
    let entries = zip_parse(archive)->0;
    assert forall|k: int| 0 <= k < entries.len() implies ((#[trigger] entries[k]) matches Some(
        entry,
    ) && !is_excluded_name(entry.name) && entry.method == Some(Storage::Stored)) by {
        assert(entries[k] == Some(packed(files)[k]));
    }
}

/// Exclusion, unpacking. Unpacking writes to no `*.md` name: such a file is
/// never created, and one that is there keeps its bytes.
pub proof fn lemma_unpack_leaves_excluded_alone(files: Seq<FileView>, data: Seq<u8>, name: Seq<char>)
    requires
        is_listing(files),
        is_excluded_name(name),
    ensures
        content_of(extracted(files, data), name) == content_of(files, name),
        forall|k: int|
            #![trigger extracted_names(data)[k]]
            0 <= k < extracted_names(data).len() ==> extracted_names(data)[k] != name,
{
    match zip_parse(data) {
        Some(entries) => {
            let plan = unpack_plan(entries);
            lemma_plan_names(entries);
            lemma_last_write_absent(plan, name);
            lemma_written_lookup(files, plan, name);
        },
        None => {},
    }
}

/// Unpacking never deletes and never moves: every file that was in the
/// workspace is still there, at its place in the listing.
pub proof fn lemma_unpack_keeps_files(files: Seq<FileView>, data: Seq<u8>)
    requires
        is_listing(files),
    ensures
        is_listing(extracted(files, data)),
        extracted(files, data).len() >= files.len(),
        forall|p: int|
            #![trigger extracted(files, data)[p]]
            0 <= p < files.len() ==> extracted(files, data)[p].name == files[p].name,
{
    match zip_parse(data) {
        Some(entries) => {
            lemma_plan_names(entries);
            lemma_written_lookup(files, unpack_plan(entries), Seq::empty());
        },
        None => {},
    }
}

/// Unpacking stays inside the workspace: every name it writes is flat.
pub proof fn lemma_unpack_stays_inside(data: Seq<u8>)
    ensures
        forall|k: int|
            #![trigger extracted_names(data)[k]]
            0 <= k < extracted_names(data).len() ==> is_flat_name(extracted_names(data)[k]),
{
    match zip_parse(data) {
        Some(entries) => {
            lemma_plan_names(entries);
        },
        None => {},
    }
}

/// Directory entries are passed over.
pub proof fn lemma_directory_entries_skipped(entry: EntryView)
    requires
        is_directory_name(entry.name),
    ensures
        unpacked(Some(entry)) is None,
{
    lemma_directory_name_not_flat(entry.name);
}

} // verus!
