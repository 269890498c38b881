//! The in-memory model of a directory tree: every regular file under a
//! root, keyed by its relative path.  The reconciler works on two values of
//! this model; the binary around the library loads them from disk and
//! applies the decisions the reconciler returns.

use vstd::prelude::*;

verus! {

/// One file of a tree: its path relative to the tree root (the identity
/// key used to match files across trees) and its byte contents.
pub struct TreeFile {
    pub rel_path: String,
    pub contents: Vec<u8>,
}

/// An in-memory model of one directory tree.
pub struct Tree {
    pub files: Vec<TreeFile>,
}

/// Whether some file of `files` lies at relative path `p`.
pub open spec fn has_path(files: Seq<TreeFile>, p: Seq<char>) -> bool {
    exists|i: int| 0 <= i < files.len() && files[i].rel_path@ == p
}

/// The index of the file at `p`; meaningful only when `has_path` holds.
pub open spec fn path_index(files: Seq<TreeFile>, p: Seq<char>) -> int {
    choose|i: int| 0 <= i < files.len() && files[i].rel_path@ == p
}

/// Relative paths are unique within one tree, as the filesystem guarantees
/// of a real directory tree.
pub open spec fn paths_unique(files: Seq<TreeFile>) -> bool {
    forall|i: int, j: int|
        0 <= i < j < files.len() ==> files[i].rel_path@ != files[j].rel_path@
}

/// The contents of `files` as a map from relative path to bytes.
pub open spec fn as_map(files: Seq<TreeFile>) -> Map<Seq<char>, Seq<u8>> {
    Map::new(
        |p: Seq<char>| has_path(files, p),
        |p: Seq<char>| files[path_index(files, p)].contents@,
    )
}

/// In a well-formed tree, the file at any index is the one the map holds
/// for its path.
pub proof fn lemma_as_map_index(files: Seq<TreeFile>, i: int)
    requires
        paths_unique(files),
        0 <= i < files.len(),
    ensures
        as_map(files).contains_key(files[i].rel_path@),
        as_map(files)[files[i].rel_path@] == files[i].contents@,
{
    let p = files[i].rel_path@;
    assert(has_path(files, p));
    let j = path_index(files, p);
    assert(0 <= j < files.len() && files[j].rel_path@ == p);
    if i != j {
        assert(files[i].rel_path@ != files[j].rel_path@);
    }
}

impl Tree {
    /// Well-formed: relative paths are unique.
    pub open spec fn wf(self) -> bool {
        paths_unique(self.files@)
    }

    /// The tree as a map from relative path to byte contents.
    pub open spec fn map_view(self) -> Map<Seq<char>, Seq<u8>> {
        as_map(self.files@)
    }

    /// An empty tree.
    pub fn new() -> (t: Tree)
        ensures
            t.files@.len() == 0,
            t.wf(),
    {
        Tree { files: Vec::new() }
    }
}

/// Finds the file at relative path `p`, if the tree holds one.
pub fn lookup(files: &Vec<TreeFile>, p: &String) -> (r: Option<usize>)
    ensures
        match r {
            Some(i) => i < files@.len() && files@[i as int].rel_path@ == p@,
            None => !has_path(files@, p@),
        },
{
    let mut i: usize = 0;
    while i < files.len()
        invariant
            i <= files@.len(),
            forall|k: int| 0 <= k < i ==> files@[k].rel_path@ != p@,
        decreases files@.len() - i,
    {
        if files[i].rel_path == *p {
            return Some(i);
        }
        i += 1;
    }
    None
}

/// Copies a byte vector.
pub fn copy_bytes(v: &Vec<u8>) -> (r: Vec<u8>)
    ensures
        r@ == v@,
{
    let mut r: Vec<u8> = Vec::new();
    let mut i: usize = 0;
    while i < v.len()
        invariant
            i <= v@.len(),
            r@ == v@.subrange(0, i as int),
        decreases v@.len() - i,
    {
        r.push(v[i]);
        i += 1;
    }
    proof {
        assert(v@.subrange(0, v@.len() as int) =~= v@);
    }
    r
}

} // verus!
