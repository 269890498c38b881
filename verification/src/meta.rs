//! Per-file metadata records, one per regular file, built fresh on every
//! walk and immutable after construction.

use vstd::prelude::*;

use crate::classify::{extension_of, get_extension_from_path, get_file_type_from_path,
    type_of_path, FileType};
use crate::digest::{hash_from_bytes, hex_encoding, sha256_of};

verus! {

/// Metadata for one file on disk at a point in time.  The relative path is
/// the identity key used to match the file across source and destination;
/// timestamps are seconds since the epoch, local-time semantics.
#[derive(Clone, Debug, PartialEq)]
pub struct NoteFileMeta {
    pub file_path: String,
    pub file_relative_path: String,
    pub file_size: u64,
    pub file_type: FileType,
    pub file_created: i64,
    pub file_modified: i64,
    pub file_extension: Option<String>,
    pub file_hash: Option<String>,
    pub note_summary: Option<String>,
    pub note_created: Option<i64>,
    pub note_updated: Option<i64>,
}

impl NoteFileMeta {
    /// Builds the record for one regular file, deriving the lower-cased
    /// extension and the file kind from the relative path.  No digest is
    /// attached yet.
    pub fn new(
        file_path: String,
        file_relative_path: String,
        file_size: u64,
        file_created: i64,
        file_modified: i64,
    ) -> (m: Self)
        ensures
            m.file_path == file_path,
            m.file_relative_path == file_relative_path,
            m.file_size == file_size,
            m.file_created == file_created,
            m.file_modified == file_modified,
            m.file_type == type_of_path(file_relative_path@),
            match m.file_extension {
                Some(e) => extension_of(file_relative_path@) == Option::Some(e@),
                None => extension_of(file_relative_path@) is None,
            },
            m.file_hash is None,
            m.note_summary is None,
            m.note_created is None,
            m.note_updated is None,
    {
        let file_extension = get_extension_from_path(&file_relative_path);
        let file_type = get_file_type_from_path(&file_relative_path);
        Self {
            file_path,
            file_relative_path,
            file_size,
            file_created,
            file_modified,
            file_type,
            file_extension,
            file_hash: None,
            note_summary: None,
            note_created: None,
            note_updated: None,
        }
    }

    /// The byte length recorded at enumeration time.
    pub fn file_size(&self) -> (r: u64)
        ensures
            r == self.file_size,
    {
        self.file_size
    }

    /// Attaches the content digest of the given file bytes, leaving every
    /// other field as it is.
    pub fn with_content_hash(self, bytes: &Vec<u8>) -> (m: Self)
        ensures
            m.file_hash matches Some(h) && h@ == hex_encoding(sha256_of(bytes@)),
            m.file_path == self.file_path,
            m.file_relative_path == self.file_relative_path,
            m.file_size == self.file_size,
            m.file_type == self.file_type,
            m.file_created == self.file_created,
            m.file_modified == self.file_modified,
            m.file_extension == self.file_extension,
            m.note_summary == self.note_summary,
            m.note_created == self.note_created,
            m.note_updated == self.note_updated,
    {
        let hash = hash_from_bytes(bytes);
        Self { file_hash: Some(hash), ..self }
    }
}

/// A markdown note: its file record, its length in lines, and its text.
#[derive(Clone, Debug, PartialEq)]
pub struct MarkdownNoteFile {
    pub note_file_meta: NoteFileMeta,
    pub note_len: u32,
    pub note_contents: String,
}

} // verus!
