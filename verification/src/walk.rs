//! The tree walker as an explicit worklist.  The binary around the library
//! owns the directory handles: it asks the walker for the next pending
//! directory, lists it, and feeds each entry back.  The walker queues
//! subdirectories and records one metadata record per regular file, so the
//! walk needs no recursion and never depends on enumeration order.

use vstd::prelude::*;

use crate::classify::{extension_of, type_of_path};
use crate::meta::NoteFileMeta;
use crate::strutil::{join_rel, spec_join};

verus! {

/// What the binary reads of one directory entry before handing it to the
/// walker: the entry's name within its directory and its metadata.
#[derive(Clone, Debug)]
pub struct DirEntryInfo {
    pub name: String,
    pub is_dir: bool,
    pub is_file: bool,
    pub size: u64,
    pub created: i64,
    pub modified: i64,
}

/// A walk in progress: the root, the directories still to list (as paths
/// relative to the root; the empty path is the root itself), and the file
/// records collected so far.
pub struct TreeWalk {
    pub root: String,
    pub pending: Vec<String>,
    pub entries: Vec<NoteFileMeta>,
}

impl TreeWalk {
    /// Starts a walk at `root`: the root directory itself is pending.
    pub fn new(root: String) -> (w: TreeWalk)
        ensures
            w.root == root,
            w.pending@.len() == 1,
            w.pending@[0]@ == Seq::<char>::empty(),
            w.entries@.len() == 0,
    {
        let mut pending: Vec<String> = Vec::new();
        pending.push(String::new());
        TreeWalk { root, pending, entries: Vec::new() }
    }

    /// Hands out the next pending directory, if any is left.
    pub fn next_dir(&mut self) -> (r: Option<String>)
        ensures
            final(self).root == old(self).root,
            final(self).entries == old(self).entries,
            match r {
                Some(d) => old(self).pending@.len() > 0 && d == old(self).pending@.last()
                    && final(self).pending@ == old(self).pending@.drop_last(),
                None => old(self).pending@.len() == 0 && final(self).pending@
                    == old(self).pending@,
            },
    {
        let r = self.pending.pop();
        proof {
            if old(self).pending@.len() > 0 {
                assert(self.pending@ =~= old(self).pending@.drop_last());
            }
        }
        r
    }

    /// Feeds one entry of directory `dir` (a path handed out by
    /// `next_dir`).  A subdirectory is queued for a later listing; a
    /// regular file is recorded with its relative path, its absolute path
    /// under the root, and its metadata; anything else is ignored.
    pub fn observe(&mut self, dir: &String, entry: DirEntryInfo)
        ensures
            final(self).root == old(self).root,
            entry.is_dir ==> final(self).entries == old(self).entries && final(self).pending@.len() == old(self).pending@.len() + 1 && final(self).pending@.drop_last()
                == old(self).pending@ && final(self).pending@.last()@ == spec_join(
                dir@,
                entry.name@,
            ),
            !entry.is_dir && entry.is_file ==> {
                &&& final(self).pending == old(self).pending
                &&& final(self).entries@.len() == old(self).entries@.len() + 1
                &&& final(self).entries@.drop_last() == old(self).entries@
                &&& {
                    let m = final(self).entries@.last();
                    &&& m.file_relative_path@ == spec_join(dir@, entry.name@)
                    &&& m.file_path@ == spec_join(old(self).root@, spec_join(dir@, entry.name@))
                    &&& m.file_size == entry.size
                    &&& m.file_created == entry.created
                    &&& m.file_modified == entry.modified
                    &&& m.file_type == type_of_path(spec_join(dir@, entry.name@))
                    &&& match m.file_extension {
                        Some(e) => extension_of(spec_join(dir@, entry.name@)) == Option::Some(e@),
                        None => extension_of(spec_join(dir@, entry.name@)) is None,
                    }
                    &&& m.file_hash is None
                }
            },
            !entry.is_dir && !entry.is_file ==> final(self).pending == old(self).pending && final(self).entries == old(self).entries,
    {
        if entry.is_dir {
            let sub = join_rel(dir, &entry.name);
            self.pending.push(sub);
            proof {
                assert(self.pending@.last()@ == spec_join(dir@, entry.name@));
            }
        } else if entry.is_file {
            let rel = join_rel(dir, &entry.name);
            let abs = join_rel(&self.root, &rel);
            let meta = NoteFileMeta::new(abs, rel, entry.size, entry.created, entry.modified);
            self.entries.push(meta);
            proof {
                assert(self.entries@.drop_last() =~= old(self).entries@);
            }
        }
    }

    /// Ends the walk, yielding the records collected so far.
    pub fn into_entries(self) -> (r: Vec<NoteFileMeta>)
        ensures
            r == self.entries,
    {
        self.entries
    }
}

} // verus!
