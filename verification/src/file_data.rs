//! What the preview panel shows of an entry.

use crate::dir_content::{is_listing_of, DirContent, IoError};
use crate::entry::{DirEntryInfo, Entry};
use crate::file_type::FileType;
use vstd::prelude::*;

verus! {

/// The preview of one entry: the listing of a directory, the contents of a
/// text file, nothing for any other kind, or the message of a read that
/// failed.
#[derive(Debug, PartialEq, Eq)]
pub enum FileData {
    Directory(DirContent),
    Text(String),
    Null,
    Error(String),
}

/// What has to be read before an entry can be previewed.
#[derive(Clone, Copy, Debug, PartialEq, Eq, Structural)]
pub enum PreviewSource {
    /// The children of the entry, which is a directory.
    Listing,
    /// The whole contents of the entry, which is a text file.
    Contents,
    /// Nothing: the entry has no preview.
    Nothing,
}

/// What has to be read to preview an entry of kind `ty`.
pub open spec fn source_of(ty: FileType) -> PreviewSource {
    match ty {
        FileType::Directory => PreviewSource::Listing,
        FileType::Text => PreviewSource::Contents,
        _ => PreviewSource::Nothing,
    }
}

impl FileData {
    /// Whether a listing that the preview holds is in listing order.
    pub open spec fn wf(&self) -> bool {
        self matches FileData::Directory(dir) ==> dir.wf()
    }

    /// What has to be read to preview `entry`. Where it is `Nothing`, the
    /// preview is `FileData::Null`.
    pub fn source(entry: &Entry) -> (source: PreviewSource)
        ensures
            source == source_of(entry.ty),
    {
        match entry.ty {
            FileType::Directory => PreviewSource::Listing,
            FileType::Text => PreviewSource::Contents,
            _ => PreviewSource::Nothing,
        }
    }

    /// The preview of the directory `path`, from what a scan of it gave: its
    /// listing, or the message of the error.
    pub fn from_listing(path: String, listing: Result<Vec<DirEntryInfo>, IoError>) -> (preview:
        FileData)
        ensures
            preview.wf(),
            match listing {
                Ok(found) => preview matches FileData::Directory(dir) && dir.path == path
                    && is_listing_of(dir.children@, found@),
                Err(e) => preview == FileData::Error(e.message),
            },
    {
        match DirContent::new(path, listing) {
            Ok(dir) => FileData::Directory(dir),
            Err(e) => FileData::Error(e.message),
        }
    }

    /// The preview of a text file, from what reading it gave: its contents, or
    /// the message of the error.
    pub fn from_contents(contents: Result<String, IoError>) -> (preview: FileData)
        ensures
            preview == match contents {
                Ok(text) => FileData::Text(text),
                Err(e) => FileData::Error(e.message),
            },
    {
        match contents {
            Ok(text) => FileData::Text(text),
            Err(e) => FileData::Error(e.message),
        }
    }
}

} // verus!
