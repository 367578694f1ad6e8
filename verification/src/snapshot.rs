//! The workspace as a value: the files of one flat directory, held in
//! memory. Reading a directory into a snapshot and writing a snapshot back
//! is the caller's part; everything the engine decides, it decides here.

use vstd::prelude::*;
use crate::names::is_flat_name;
use crate::names::is_plain;
use crate::names::is_plain_name;
use crate::names::same_text;

verus! {

/// The mathematical view of a file: the characters of its name and its bytes.
pub struct FileView {
    pub name: Seq<char>,
    pub content: Seq<u8>,
}

/// A file of the workspace or an entry of an archive: a name and its bytes.
#[derive(Debug, PartialEq, Eq)]
pub struct WorkspaceFile {
    pub name: String,
    pub content: Vec<u8>,
}

impl View for WorkspaceFile {
    type V = FileView;

    open spec fn view(&self) -> FileView {
        FileView { name: self.name@, content: self.content@ }
    }
}

impl WorkspaceFile {
    /// A copy of the file.
    pub fn duplicate(&self) -> (copy: WorkspaceFile)
        ensures
            copy@ == self@,
    {
        WorkspaceFile { name: self.name.clone(), content: self.content.clone() }
    }
}

/// No two files of the sequence share a name.
pub open spec fn names_distinct(files: Seq<FileView>) -> bool {
    forall|i: int, j: int|
        #![trigger files[i], files[j]]
        0 <= i < j < files.len() ==> files[i].name != files[j].name
}

/// Every file of the sequence has a plain name.
pub open spec fn names_plain(files: Seq<FileView>) -> bool {
    forall|i: int| #![trigger files[i]] 0 <= i < files.len() ==> is_plain_name(files[i].name)
}

/// Every file of the sequence has a flat name.
pub open spec fn names_flat(files: Seq<FileView>) -> bool {
    forall|i: int| #![trigger files[i]] 0 <= i < files.len() ==> is_flat_name(files[i].name)
}

/// Flat names are plain names.
pub proof fn lemma_flat_names_are_plain(files: Seq<FileView>)
    requires
        names_flat(files),
    ensures
        names_plain(files),
{
    assert forall|i: int| 0 <= i < files.len() implies is_plain_name((#[trigger] files[i]).name) by {
        crate::names::lemma_flat_name_is_plain(files[i].name);
    }
}

/// What a directory listing looks like: plain names, each used once.
pub open spec fn is_listing(files: Seq<FileView>) -> bool {
    names_distinct(files) && names_plain(files)
}

/// Some file of the sequence carries this name.
pub open spec fn has_name(files: Seq<FileView>, name: Seq<char>) -> bool {
    exists|i: int| #![trigger files[i]] 0 <= i < files.len() && files[i].name == name
}

/// An index at which the name stands; in a listing there is at most one.
pub open spec fn index_of(files: Seq<FileView>, name: Seq<char>) -> int {
    choose|i: int| #![trigger files[i]] 0 <= i < files.len() && files[i].name == name
}

/// The bytes stored under a name, if any.
pub open spec fn content_of(files: Seq<FileView>, name: Seq<char>) -> Option<Seq<u8>> {
    if has_name(files, name) {
        Some(files[index_of(files, name)].content)
    } else {
        None
    }
}

/// The files after one write: a file of that name is replaced where it
/// stands, a new name goes to the end. Nothing is ever removed.
pub open spec fn with_file(files: Seq<FileView>, file: FileView) -> Seq<FileView> {
    if has_name(files, file.name) {
        files.update(index_of(files, file.name), file)
    } else {
        files.push(file)
    }
}

/// The files after a run of writes, carried out first to last.
pub open spec fn written(files: Seq<FileView>, writes: Seq<FileView>) -> Seq<FileView>
    decreases writes.len(),
{
    if writes.len() == 0 {
        files
    } else {
        with_file(written(files, writes.drop_last()), writes.last())
    }
}

/// In a listing, a name found at `i` is found nowhere else.
pub proof fn lemma_index_of_unique(files: Seq<FileView>, i: int)
    requires
        names_distinct(files),
        0 <= i < files.len(),
    ensures
        has_name(files, files[i].name),
        index_of(files, files[i].name) == i,
{
}

/// One write of a plain name keeps a listing a listing.
pub proof fn lemma_with_file_listing(files: Seq<FileView>, file: FileView)
    requires
        is_listing(files),
        is_plain_name(file.name),
    ensures
        is_listing(with_file(files, file)),
        with_file(files, file).len() >= files.len(),
        has_name(with_file(files, file), file.name),
        content_of(with_file(files, file), file.name) == Some(file.content),
{
    let after = with_file(files, file);
    let place = if has_name(files, file.name) {
        index_of(files, file.name)
    } else {
        files.len() as int
    };
    lemma_index_of_unique(after, place);
}

/// A write changes what is stored under its own name and nothing else, and
/// every file keeps its place in the listing.
pub proof fn lemma_with_file_lookup(files: Seq<FileView>, file: FileView, name: Seq<char>)
    requires
        is_listing(files),
        is_plain_name(file.name),
    ensures
        content_of(with_file(files, file), name) == if name == file.name {
            Some(file.content)
        } else {
            content_of(files, name)
        },
        has_name(with_file(files, file), name) <==> (name == file.name || has_name(files, name)),
        forall|p: int|
            #![trigger with_file(files, file)[p]]
            0 <= p < files.len() ==> with_file(files, file)[p].name == files[p].name,
{
    let after = with_file(files, file);
    lemma_with_file_listing(files, file);
    if name != file.name {
        if has_name(files, name) {
            lemma_index_of_unique(after, index_of(files, name));
        }
        if has_name(after, name) {
            lemma_index_of_unique(files, index_of(after, name));
        }
    }
}

/// The bytes that the last write to `name` carried, if the writes hold one.
pub open spec fn last_write(writes: Seq<FileView>, name: Seq<char>) -> Option<Seq<u8>>
    decreases writes.len(),
{
    if writes.len() == 0 {
        None
    } else if writes.last().name == name {
        Some(writes.last().content)
    } else {
        last_write(writes.drop_last(), name)
    }
}

/// A run of writes with plain names keeps a listing a listing. Afterwards
/// each name holds what was last written to it, or what it held before where
/// nothing was written to it; no file has left and none has moved.
pub proof fn lemma_written_lookup(files: Seq<FileView>, writes: Seq<FileView>, name: Seq<char>)
    requires
        is_listing(files),
        names_plain(writes),
    ensures
        is_listing(written(files, writes)),
        content_of(written(files, writes), name) == match last_write(writes, name) {
            Some(content) => Some(content),
            None => content_of(files, name),
        },
        written(files, writes).len() >= files.len(),
        forall|p: int|
            #![trigger written(files, writes)[p]]
            0 <= p < files.len() ==> written(files, writes)[p].name == files[p].name,
    decreases writes.len(),
{
    if writes.len() > 0 {
        let earlier = writes.drop_last();
        let file = writes.last();
        lemma_written_lookup(files, earlier, name);
        let middle = written(files, earlier);
        lemma_with_file_listing(middle, file);
        lemma_with_file_lookup(middle, file, name);
    }
}

/// Writes whose names are all present already change no name and no place.
pub proof fn lemma_written_in_place(files: Seq<FileView>, writes: Seq<FileView>)
    requires
        is_listing(files),
        names_plain(writes),
        forall|k: int| #![trigger writes[k]] 0 <= k < writes.len() ==> has_name(files, writes[k].name),
    ensures
        written(files, writes).len() == files.len(),
        forall|p: int|
            #![trigger written(files, writes)[p]]
            0 <= p < files.len() ==> written(files, writes)[p].name == files[p].name,
    decreases writes.len(),
{
    if writes.len() > 0 {
        let earlier = writes.drop_last();
        let file = writes.last();
        lemma_written_in_place(files, earlier);
        lemma_written_lookup(files, earlier, file.name);
        lemma_with_file_lookup(written(files, earlier), file, file.name);
    }
}

/// Every write is the last write to some name, its own or a later one's.
pub proof fn lemma_last_write_exists(writes: Seq<FileView>, k: int)
    requires
        0 <= k < writes.len(),
    ensures
        last_write(writes, writes[k].name) is Some,
    decreases writes.len(),
{
    if writes.last().name != writes[k].name {
        lemma_last_write_exists(writes.drop_last(), k);
    }
}

/// A name that no write carries has no last write.
pub proof fn lemma_last_write_absent(writes: Seq<FileView>, name: Seq<char>)
    requires
        forall|k: int| #![trigger writes[k]] 0 <= k < writes.len() ==> writes[k].name != name,
    ensures
        last_write(writes, name) is None,
    decreases writes.len(),
{
    if writes.len() > 0 {
        lemma_last_write_absent(writes.drop_last(), name);
    }
}

/// Carrying out the same writes a second time changes nothing.
pub proof fn lemma_written_twice(files: Seq<FileView>, writes: Seq<FileView>)
    requires
        is_listing(files),
        names_plain(writes),
    ensures
        written(written(files, writes), writes) == written(files, writes),
{
    let once = written(files, writes);
    let twice = written(once, writes);
    lemma_written_lookup(files, writes, Seq::empty());
    assert forall|k: int| 0 <= k < writes.len() implies has_name(
        once,
        (#[trigger] writes[k]).name,
    ) by {
        lemma_last_write_exists(writes, k);
        lemma_written_lookup(files, writes, writes[k].name);
    }
    lemma_written_in_place(once, writes);
    assert forall|p: int| 0 <= p < once.len() implies twice[p] == once[p] by {
        let name = once[p].name;
        lemma_written_lookup(files, writes, name);
        lemma_written_lookup(once, writes, name);
        lemma_index_of_unique(once, p);
        lemma_index_of_unique(twice, p);
    }
}

/// Writes with distinct names into an empty workspace leave exactly those
/// writes, in their order.
pub proof fn lemma_written_into_empty(writes: Seq<FileView>)
    requires
        names_distinct(writes),
    ensures
        written(Seq::empty(), writes) == writes,
    decreases writes.len(),
{
    if writes.len() > 0 {
        lemma_written_into_empty(writes.drop_last());
    }
}

/// A snapshot of the workspace directory: its regular files by name, in the
/// order in which the directory listed them.
pub struct Workspace {
    files: Vec<WorkspaceFile>,
}

impl View for Workspace {
    type V = Seq<FileView>;

    closed spec fn view(&self) -> Seq<FileView> {
        self.files@.map_values(|f: WorkspaceFile| f@)
    }
}

impl Workspace {
    /// The snapshot is a listing: plain names, each used once.
    pub open spec fn wf(&self) -> bool {
        is_listing(self@)
    }

    /// A workspace with no files in it.
    pub fn new() -> (workspace: Workspace)
        ensures
            workspace.wf(),
            workspace@ == Seq::<FileView>::empty(),
    {
        let workspace = Workspace { files: Vec::new() };
        workspace
    }

    /// The number of files.
    pub fn len(&self) -> (n: usize)
        ensures
            n == self@.len(),
    {
        self.files.len()
    }

    /// The file at `index` of the listing.
    pub fn file(&self, index: usize) -> (file: &WorkspaceFile)
        requires
            index < self@.len(),
        ensures
            file@ == self@[index as int],
    {
        &self.files[index]
    }

    /// Where the file of this name stands.
    pub fn position(&self, name: &str) -> (found: Option<usize>)
        requires
            self.wf(),
        ensures
            match found {
                Some(i) => i < self@.len() && self@[i as int].name == name@ && index_of(
                    self@,
                    name@,
                ) == i,
                None => true,
            },
            found is Some <==> has_name(self@, name@),
    {
        let n = self.files.len();
        let mut i: usize = 0;
        while i < n
            invariant
                n == self.files.len(),
                i <= n,
                self.wf(),
                forall|j: int| 0 <= j < i ==> (#[trigger] self@[j]).name != name@,
            decreases n - i,
        {
            if same_text(self.files[i].name.as_str(), name) {
                proof {
                    lemma_index_of_unique(self@, i as int);
                }
                return Some(i);
            }
            i += 1;
        }
        None
    }

    /// The bytes stored under a name.
    pub fn get(&self, name: &str) -> (content: Option<&Vec<u8>>)
        requires
            self.wf(),
        ensures
            match content {
                Some(bytes) => content_of(self@, name@) == Some(bytes@),
                None => content_of(self@, name@) is None,
            },
    {
        match self.position(name) {
            Some(i) => Some(&self.files[i].content),
            None => None,
        }
    }

    /// Whether a file of this name is present.
    pub fn contains(&self, name: &str) -> (present: bool)
        requires
            self.wf(),
        ensures
            present == has_name(self@, name@),
    {
        self.position(name).is_some()
    }

    /// Stores a file under its name, replacing a file of the same name.
    /// A name that is not plain is refused and the workspace stays as it was.
    pub fn write(&mut self, file: WorkspaceFile) -> (stored: bool)
        requires
            old(self).wf(),
        ensures
            final(self).wf(),
            stored == is_plain_name(file.name@),
            final(self)@ == if stored {
                with_file(old(self)@, file@)
            } else {
                old(self)@
            },
    {
        if !is_plain(file.name.as_str()) {
            return false;
        }
        proof {
            lemma_with_file_listing(self@, file@);
        }
        match self.position(file.name.as_str()) {
            Some(i) => {
                self.files.set(i, file);
                assert(self@ =~= with_file(old(self)@, file@));
            },
            None => {
                self.files.push(file);
                assert(self@ =~= with_file(old(self)@, file@));
            },
        }
        true
    }
}

} // verus!
