//! One-directional directory synchronization engine.
//!
//! The library makes a destination tree's file set and contents match a
//! source tree: changed or missing files are copied, and destination files
//! absent from the source are deleted, except for files under a protected
//! version-control prefix.  The reconciliation itself is a pure function over
//! in-memory models of the two trees; the thin binary around the library
//! performs the filesystem reads and writes that the model prescribes.

use vstd::prelude::*;

pub mod classify;
pub mod detect;
pub mod digest;
pub mod errors;
pub mod frontmatter;
pub mod meta;
pub mod opts;
pub mod reconcile;
pub mod strutil;
pub mod tree;
pub mod walk;

verus! {

/// Adds two counters, as used by size accounting in callers.
pub fn add(left: usize, right: usize) -> (r: usize)
    requires
        left + right <= usize::MAX,
    ensures
        r == left + right,
{
    left + right
}

} // verus!
