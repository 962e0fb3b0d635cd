//! Directory entries: what a directory scan reports of one child, and the
//! classified entry that the browser keeps.

use crate::file_type::{classification, FileType, DOT};
use vstd::std_specs::convert::FromSpecImpl;
use vstd::prelude::*;

verus! {

/// What a directory scan reports of one child, before classification.
///
/// `is_dir`, `is_symlink` and `is_file` are the answers of the file system
/// for `path`; a broken or special entry answers `false` to all three.
#[derive(Debug, PartialEq, Eq)]
pub struct DirEntryInfo {
    pub path: String,
    pub file_name: String,
    pub is_dir: bool,
    pub is_symlink: bool,
    pub is_file: bool,
}

/// One child of a directory: its absolute path, its name, and its kind.
#[derive(Debug, PartialEq, Eq)]
pub struct Entry {
    pub path: String,
    pub file_name: String,
    pub ty: FileType,
}

/// The entry that stands for a scanned child: same path and name, with the
/// kind that classification gives.
pub open spec fn entry_of(info: DirEntryInfo) -> Entry {
    Entry {
        path: info.path,
        file_name: info.file_name,
        ty: classification(
            info.is_dir,
            info.is_symlink,
            info.is_file,
            vstd::utf8::encode_utf8(info.file_name@),
        ),
    }
}

impl From<DirEntryInfo> for Entry {
    /// Classifies a scanned child and keeps its path and name.
    fn from(value: DirEntryInfo) -> (entry: Entry) {
        let ty = FileType::from(&value);
        Entry { path: value.path, file_name: value.file_name, ty }
    }
}

impl FromSpecImpl<DirEntryInfo> for Entry {
    open spec fn obeys_from_spec() -> bool {
        true
    }

    open spec fn from_spec(value: DirEntryInfo) -> Entry {
        entry_of(value)
    }
}

impl Clone for Entry {
    /// A copy that is equal in every field.
    fn clone(&self) -> (copy: Entry)
        ensures
            copy == *self,
    {
        Entry { path: self.path.clone(), file_name: self.file_name.clone(), ty: self.ty }
    }
}

impl Entry {
    /// The name as the bytes of its UTF-8 encoding.
    pub open spec fn name_bytes(&self) -> Seq<u8> {
        vstd::utf8::encode_utf8(self.file_name@)
    }

    /// Whether the entry is classified as a directory.
    pub open spec fn is_directory(&self) -> bool {
        self.ty == FileType::Directory
    }

    /// Whether the name starts with a dot.
    pub open spec fn hidden(&self) -> bool {
        self.name_bytes().len() > 0 && self.name_bytes()[0] == DOT
    }

    /// Whether the entry is a directory.
    pub fn is_dir(&self) -> (r: bool)
        ensures
            r == self.is_directory(),
    {
        self.ty == FileType::Directory
    }

    /// Whether the entry is hidden, that is, whether its name starts with a dot.
    pub fn is_hidden(&self) -> (r: bool)
        ensures
            r == self.hidden(),
    {
        let name = self.file_name.as_str().as_bytes();
        name.len() > 0 && name[0] == DOT
    }
}

} // verus!
