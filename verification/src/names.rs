//! File names of a workspace: which ones may live in the flat directory,
//! which one is the manifest, and which are left out of every archive.

use vstd::prelude::*;

verus! {

/// Name of the manifest file inside a workspace and inside an archive.
pub const MANIFEST_NAME: &'static str = "project.json";

/// A plain name is one that a directory listing can give: it is not empty,
/// is neither `.` nor `..`, and holds no `/`. Every file that lies directly
/// in a directory has such a name, on every platform.
pub open spec fn is_plain_name(name: Seq<char>) -> bool {
    &&& name.len() > 0
    &&& name != seq!['.']
    &&& name != seq!['.', '.']
    &&& forall|i: int| 0 <= i < name.len() ==> #[trigger] name[i] != '/'
}

/// Characters that give a name a meaning beyond "a file in this directory"
/// on some platform: the two path separators and the drive marker.
pub open spec fn is_path_syntax(c: char) -> bool {
    c == '/' || c == '\\' || c == ':'
}

/// A flat name addresses one file directly inside the workspace directory
/// wherever the archive is unpacked. It is not empty, is neither `.` nor
/// `..`, and holds no path syntax, so joining it to the workspace path can
/// never leave the workspace. Names that come out of an archive are held to
/// this.
pub open spec fn is_flat_name(name: Seq<char>) -> bool {
    &&& name.len() > 0
    &&& name != seq!['.']
    &&& name != seq!['.', '.']
    &&& forall|i: int| 0 <= i < name.len() ==> !is_path_syntax(#[trigger] name[i])
}

/// Names ending in `.md` are notes for people and tools. They stay in the
/// workspace and never enter or leave an archive.
pub open spec fn is_excluded_name(name: Seq<char>) -> bool {
    &&& name.len() >= 3
    &&& name[name.len() - 3] == '.'
    &&& name[name.len() - 2] == 'm'
    &&& name[name.len() - 1] == 'd'
}

/// The manifest is the one file whose content is checked and reformatted.
pub open spec fn is_manifest_name(name: Seq<char>) -> bool {
    name == MANIFEST_NAME@
}

/// Every flat name is a plain name.
pub proof fn lemma_flat_name_is_plain(name: Seq<char>)
    requires
        is_flat_name(name),
    ensures
        is_plain_name(name),
{
    assert forall|i: int| 0 <= i < name.len() implies #[trigger] name[i] != '/' by {
        assert(!is_path_syntax(name[i]));
    }
}

/// An archive entry whose name ends in a separator stands for a directory.
pub open spec fn is_directory_name(name: Seq<char>) -> bool {
    name.len() > 0 && (name.last() == '/' || name.last() == '\\')
}

/// Directory entries are never flat names.
pub proof fn lemma_directory_name_not_flat(name: Seq<char>)
    requires
        is_directory_name(name),
    ensures
        !is_flat_name(name),
{
}

/// The manifest's own name is flat and is not excluded, so the manifest is
/// never passed over.
pub proof fn lemma_manifest_name_is_kept()
    ensures
        is_flat_name(MANIFEST_NAME@),
        !is_excluded_name(MANIFEST_NAME@),
{
    reveal_strlit("project.json");
    assert(MANIFEST_NAME@.len() == 12);
}

/// The characters of a string, in order.
pub fn chars_of(text: &str) -> (chars: Vec<char>)
    ensures
        chars@ == text@,
{
    let mut chars: Vec<char> = Vec::new();
    for c in it: text.chars()
        invariant
            chars@ == it.seq().take(it.index() as int),
            it.seq() == text@,
    {
        chars.push(c);
    }
    chars
}

/// Whether the name is plain.
pub fn is_plain(name: &str) -> (plain: bool)
    ensures
        plain == is_plain_name(name@),
{
    let chars = chars_of(name);
    let n = chars.len();
    if n == 0 {
        return false;
    }
    if n == 1 && chars[0] == '.' {
        assert(chars@ =~= seq!['.']);
        return false;
    }
    if n == 2 && chars[0] == '.' && chars[1] == '.' {
        assert(chars@ =~= seq!['.', '.']);
        return false;
    }
    let mut i: usize = 0;
    while i < n
        invariant
            chars@ == name@,
            n == chars.len(),
            i <= n,
            forall|j: int| 0 <= j < i ==> #[trigger] chars@[j] != '/',
        decreases n - i,
    {
        if chars[i] == '/' {
            return false;
        }
        i += 1;
    }
    true
}

/// Whether the name is flat.
pub fn is_flat(name: &str) -> (flat: bool)
    ensures
        flat == is_flat_name(name@),
{
    let chars = chars_of(name);
    let n = chars.len();
    if n == 0 {
        return false;
    }
    if n == 1 && chars[0] == '.' {
        assert(chars@ =~= seq!['.']);
        return false;
    }
    if n == 2 && chars[0] == '.' && chars[1] == '.' {
        assert(chars@ =~= seq!['.', '.']);
        return false;
    }
    let mut i: usize = 0;
    while i < n
        invariant
            chars@ == name@,
            n == chars.len(),
            i <= n,
            forall|j: int| 0 <= j < i ==> !is_path_syntax(#[trigger] chars@[j]),
        decreases n - i,
    {
        let c = chars[i];
        if c == '/' || c == '\\' || c == ':' {
            return false;
        }
        i += 1;
    }
    true
}

/// Whether the name is excluded from archives.
pub fn is_excluded(name: &str) -> (excluded: bool)
    ensures
        excluded == is_excluded_name(name@),
{
    let chars = chars_of(name);
    let n = chars.len();
    n >= 3 && chars[n - 3] == '.' && chars[n - 2] == 'm' && chars[n - 1] == 'd'
}

/// Whether the name is the manifest's.
pub fn is_manifest(name: &str) -> (manifest: bool)
    ensures
        manifest == is_manifest_name(name@),
{
    same_text(name, MANIFEST_NAME)
}

/// Whether two strings hold the same text.
pub fn same_text(a: &str, b: &str) -> (same: bool)
    ensures
        same == (a@ == b@),
{
    let x = a.as_bytes();
    let y = b.as_bytes();
    proof {
        vstd::utf8::encode_utf8_decode_utf8(a@);
        vstd::utf8::encode_utf8_decode_utf8(b@);
    }
    if x.len() != y.len() {
        return false;
    }
    let n = x.len();
    let mut i: usize = 0;
    while i < n
        invariant
            x@ == vstd::utf8::encode_utf8(a@),
            y@ == vstd::utf8::encode_utf8(b@),
            n == x.len(),
            n == y.len(),
            i <= n,
            forall|j: int| 0 <= j < i ==> x@[j] == y@[j],
        decreases n - i,
    {
        if x[i] != y[i] {
            return false;
        }
        i += 1;
    }
    assert(x@ =~= y@);
    true
}

} // verus!
