//! The manifest store: a directory with one file per fingerprint, written
//! once. The disk itself is the caller's; here are the layout of the
//! directory, a model of what it holds, and the decisions of a store
//! operation.

use crate::fingerprint::{is_fingerprint, is_lower_hex};
use vstd::prelude::*;

verus! {

/// The extension of a stored manifest, dot included.
pub open spec fn extension() -> Seq<char> {
    seq!['.', 'c', '2', 'p', 'a']
}

/// Where the entry of `key` lies: `<store_dir>/<key>.c2pa`.
pub open spec fn entry_path(store_dir: Seq<char>, key: Seq<char>) -> Seq<char> {
    store_dir + seq!['/'] + key + extension()
}

/// The index of the last `c` in `s`, or -1 where `s` holds none.
pub open spec fn last_index_of(s: Seq<char>, c: char) -> int
    decreases s.len(),
{
    if s.len() == 0 {
        -1
    } else if s.last() == c {
        s.len() - 1
    } else {
        last_index_of(s.drop_last(), c)
    }
}

/// The last component of a path: what follows its last `/`.
pub open spec fn file_name(path: Seq<char>) -> Seq<char> {
    path.skip(last_index_of(path, '/') + 1)
}

/// A file name without its extension: what precedes its last `.`.
pub open spec fn file_stem(path: Seq<char>) -> Seq<char> {
    let name = file_name(path);
    let dot = last_index_of(name, '.');
    if dot < 0 {
        name
    } else {
        name.take(dot)
    }
}

/// The last occurrence of `c` is at `i` when `c` stands at `i` and nowhere
/// behind it.
pub proof fn lemma_last_index_of(s: Seq<char>, c: char, i: int)
    requires
        0 <= i < s.len(),
        s[i] == c,
        forall|j: int| i < j < s.len() ==> s[j] != c,
    ensures
        last_index_of(s, c) == i,
    decreases s.len(),
{
    if s.last() != c {
        let t = s.drop_last();
        assert(t[i] == c);
        assert forall|j: int| i < j < t.len() implies t[j] != c by {
            assert(t[j] == s[j]);
        }
        lemma_last_index_of(t, c, i);
    }
}

/// The path of an entry names its key: the stem of the file name of
/// `<store_dir>/<key>.c2pa` is `key`, whatever the directory, for every
/// well-formed fingerprint.
pub proof fn lemma_entry_path_names_key(store_dir: Seq<char>, key: Seq<char>)
    requires
        is_fingerprint(key),
    ensures
        file_name(entry_path(store_dir, key)) == key + extension(),
        file_stem(entry_path(store_dir, key)) == key,
{
    let path = entry_path(store_dir, key);
    let slash = store_dir.len() as int;
    assert(path[slash] == '/');
    assert forall|j: int| slash < j < path.len() implies path[j] != '/' by {
        if j <= slash + key.len() {
            assert(path[j] == key[j - slash - 1]);
            assert(is_lower_hex(key[j - slash - 1]));
        } else {
            assert(path[j] == extension()[j - slash - 1 - key.len()]);
        }
    }
    lemma_last_index_of(path, '/', slash);
    let name = key + extension();
    assert(file_name(path) =~= name);
    let dot = key.len() as int;
    assert(name[dot] == '.');
    assert forall|j: int| dot < j < name.len() implies name[j] != '.' by {
        assert(name[j] == extension()[j - dot]);
    }
    lemma_last_index_of(name, '.', dot);
    assert(name.take(dot) =~= key);
}

/// Builds the path of the entry of `key` under `store_dir`.
pub fn entry_path_of(store_dir: &str, key: &str) -> (path: String)
    ensures
        path@ == entry_path(store_dir@, key@),
{
    let mut path = store_dir.to_owned();
    path.append("/");
    path.append(key);
    path.append(".c2pa");
    proof {
        reveal_strlit("/");
        reveal_strlit(".c2pa");
        assert("/"@ =~= seq!['/']);
        assert(".c2pa"@ =~= extension());
    }
    path
}

/// What lies at a path.
pub enum Slot {
    /// A regular file with these bytes.
    File(Seq<u8>),
    /// Something that is no regular file: a directory, a dangling link.
    NotAFile,
    /// Something that could not be examined.
    Inaccessible,
}

/// The store directory as a partial map from paths to what lies there.
pub type Directory = Map<Seq<char>, Slot>;

/// What a look at a path found.
#[derive(Debug, Clone, Copy, PartialEq, Eq)]
pub enum PathProbe {
    /// Nothing lies there.
    Absent,
    /// A regular file lies there.
    RegularFile,
    /// Something lies there that is no regular file.
    NotAFile,
    /// The path could not be examined.
    Inaccessible,
}

/// How a store operation ended.
#[derive(Debug, Clone, Copy, PartialEq, Eq)]
pub enum PutOutcome {
    /// A regular file was there already; nothing was written.
    AlreadyPresent,
    /// The blob was written as a new file.
    Written,
    /// The path is taken by something that is no usable file.
    Conflict,
    /// Writing failed.
    IoError,
}

/// What a store operation does once the path has been looked at.
#[derive(Debug, Clone, Copy, PartialEq, Eq)]
pub enum PutPlan {
    /// No write is due: the operation ends with this outcome.
    Settled(PutOutcome),
    /// The path is free: write the blob.
    Write,
}

/// What a look at `path` finds in `dir`.
pub open spec fn probe_of(dir: Directory, path: Seq<char>) -> PathProbe {
    if !dir.dom().contains(path) {
        PathProbe::Absent
    } else {
        match dir[path] {
            Slot::File(_) => PathProbe::RegularFile,
            Slot::NotAFile => PathProbe::NotAFile,
            Slot::Inaccessible => PathProbe::Inaccessible,
        }
    }
}

/// An entry exists exactly where a regular file was found.
pub open spec fn entry_exists(probe: PathProbe) -> bool {
    probe == PathProbe::RegularFile
}

/// The plan that a probe calls for: an existing file settles the operation
/// as a duplicate, anything else in the way as a conflict, and only a free
/// path is written to.
pub open spec fn plan_for(probe: PathProbe) -> PutPlan {
    match probe {
        PathProbe::Absent => PutPlan::Write,
        PathProbe::RegularFile => PutPlan::Settled(PutOutcome::AlreadyPresent),
        PathProbe::NotAFile => PutPlan::Settled(PutOutcome::Conflict),
        PathProbe::Inaccessible => PutPlan::Settled(PutOutcome::Conflict),
    }
}

/// The outcome of a write.
pub open spec fn write_outcome(written: bool) -> PutOutcome {
    if written {
        PutOutcome::Written
    } else {
        PutOutcome::IoError
    }
}

/// The directory after a write of `blob` to `path`. A write is all or
/// nothing: it leaves the whole blob under the path, or the directory as it
/// was.
pub open spec fn dir_after_write(
    dir: Directory,
    path: Seq<char>,
    blob: Seq<u8>,
    written: bool,
) -> Directory {
    if written {
        dir.insert(path, Slot::File(blob))
    } else {
        dir
    }
}

/// A whole store operation on the model: look at the path, then write if
/// and only if it is free. `written` says whether a write that is attempted
/// succeeds.
pub open spec fn put_if_absent(
    dir: Directory,
    path: Seq<char>,
    blob: Seq<u8>,
    written: bool,
) -> (Directory, PutOutcome) {
    match plan_for(probe_of(dir, path)) {
        PutPlan::Settled(outcome) => (dir, outcome),
        PutPlan::Write => (dir_after_write(dir, path, blob, written), write_outcome(written)),
    }
}

/// Whether an entry exists, given what a look at its path found.
pub fn is_present(probe: PathProbe) -> (found: bool)
    ensures
        found == entry_exists(probe),
{
    match probe {
        PathProbe::RegularFile => true,
        _ => false,
    }
}

/// Decides what a store operation does after the look at its path.
pub fn plan_put(probe: PathProbe) -> (plan: PutPlan)
    ensures
        plan == plan_for(probe),
{
    match probe {
        PathProbe::Absent => PutPlan::Write,
        PathProbe::RegularFile => PutPlan::Settled(PutOutcome::AlreadyPresent),
        PathProbe::NotAFile => PutPlan::Settled(PutOutcome::Conflict),
        PathProbe::Inaccessible => PutPlan::Settled(PutOutcome::Conflict),
    }
}

/// Ends a store operation whose write was attempted.
pub fn settle_put(written: bool) -> (outcome: PutOutcome)
    ensures
        outcome == write_outcome(written),
{
    if written {
        PutOutcome::Written
    } else {
        PutOutcome::IoError
    }
}

} // verus!
