//! Classification of directory entries by what they are and how they are named.

use crate::bytes::{bytes_eq, last_index_of, lemma_last_index_of};
use crate::entry::DirEntryInfo;
use vstd::std_specs::convert::FromSpecImpl;
use vstd::prelude::*;
use vstd::slice::slice_subrange;
use vstd::utf8::encode_utf8;

verus! {

/// The byte `.`, which separates a name from its extension and marks hidden
/// names.
pub const DOT: u8 = 0x2e;

/// What a directory entry is, as far as the browser distinguishes.
///
/// `Image` and `Video` are kept for later use: classification never gives
/// them.
#[derive(Clone, Copy, Debug, PartialEq, Eq, Structural)]
pub enum FileType {
    Unknown,
    Directory,
    Symlink,
    Image,
    Text,
    Video,
}

/// The extension of a file name: what follows its last dot, without the dot.
/// A name without a dot has the empty extension, and so has a name whose only
/// dot is its first byte.
pub open spec fn extension_of(name: Seq<u8>) -> Seq<u8> {
    match last_index_of(name, DOT) {
        Some(i) => if i > 0 {
            name.skip(i + 1)
        } else {
            Seq::empty()
        },
        None => Seq::empty(),
    }
}

/// Whether files with this extension are shown as text. The comparison is
/// exact, byte for byte.
pub open spec fn is_text_extension(ext: Seq<u8>) -> bool {
    ||| ext.len() == 0
    ||| ext == encode_utf8("asm"@)
    ||| ext == encode_utf8("lock"@)
    ||| ext == encode_utf8("md"@)
    ||| ext == encode_utf8("rs"@)
    ||| ext == encode_utf8("toml"@)
    ||| ext == encode_utf8("yaml"@)
    ||| ext == encode_utf8("yml"@)
    ||| ext == encode_utf8("wat"@)
}

/// The kind of an entry. The tests apply in this order: a directory is a
/// `Directory`; else a symlink is a `Symlink`; else a regular file is `Text`
/// when its extension is one of the text extensions and `Unknown` when it is
/// not; anything else is `Unknown`.
pub open spec fn classification(is_dir: bool, is_symlink: bool, is_file: bool, name: Seq<u8>) -> FileType {
    if is_dir {
        FileType::Directory
    } else if is_symlink {
        FileType::Symlink
    } else if is_file && is_text_extension(extension_of(name)) {
        FileType::Text
    } else {
        FileType::Unknown
    }
}

/// Classification gives one of four kinds: `Image` and `Video` never come out.
pub proof fn lemma_classification_kinds(
    is_dir: bool,
    is_symlink: bool,
    is_file: bool,
    name: Seq<u8>,
)
    ensures
        classification(is_dir, is_symlink, is_file, name) != FileType::Image,
        classification(is_dir, is_symlink, is_file, name) != FileType::Video,
        classification(is_dir, is_symlink, is_file, name) == FileType::Unknown ==> !is_dir
            && !is_symlink,
{
}

/// The extension holds no dot. Where the name has a dot after its first byte,
/// the name ends in a dot followed by the extension; where it has none, the
/// extension is empty.
pub proof fn lemma_extension_of(name: Seq<u8>)
    ensures
        forall|j: int| 0 <= j < extension_of(name).len() ==> extension_of(name)[j] != DOT,
        extension_of(name).len() <= name.len(),
        (exists|i: int| 0 < i < name.len() && name[i] == DOT) ==> {
            let ext = extension_of(name);
            &&& ext.len() < name.len()
            &&& name[name.len() - ext.len() - 1] == DOT
            &&& name.skip(name.len() - ext.len()) == ext
        },
        !(exists|i: int| 0 < i < name.len() && name[i] == DOT) ==> extension_of(name).len() == 0,
{
    lemma_last_index_of(name, DOT);
}

/// The extension of `name`, as a part of its bytes.
pub fn extension(name: &str) -> (ext: &[u8])
    ensures
        ext@ == extension_of(encode_utf8(name@)),
{
    let bytes = name.as_bytes();
    let mut end: usize = bytes.len();
    proof {
        assert(bytes@.take(end as int) =~= bytes@);
    }
    while end > 0 && bytes[end - 1] != DOT
        invariant
            end <= bytes@.len(),
            last_index_of(bytes@, DOT) == last_index_of(bytes@.take(end as int), DOT),
        decreases end,
    {
        proof {
            assert(bytes@.take(end as int).drop_last() =~= bytes@.take(end - 1));
        }
        end -= 1;
    }
    if end > 1 {
        slice_subrange(bytes, end, bytes.len())
    } else {
        slice_subrange(bytes, 0, 0)
    }
}

/// Whether files with the extension `ext` are shown as text.
pub fn has_text_extension(ext: &[u8]) -> (r: bool)
    ensures
        r == is_text_extension(ext@),
{
    ext.len() == 0 || bytes_eq(ext, "asm".as_bytes()) || bytes_eq(ext, "lock".as_bytes())
        || bytes_eq(ext, "md".as_bytes()) || bytes_eq(ext, "rs".as_bytes()) || bytes_eq(
        ext,
        "toml".as_bytes(),
    ) || bytes_eq(ext, "yaml".as_bytes()) || bytes_eq(ext, "yml".as_bytes()) || bytes_eq(
        ext,
        "wat".as_bytes(),
    )
}

impl<'a> From<&'a DirEntryInfo> for FileType {
    /// Classifies a scanned child. Never fails: what cannot be told to be a
    /// directory, a symlink or a regular file is `Unknown`.
    fn from(value: &'a DirEntryInfo) -> (ty: FileType) {
        if value.is_dir {
            FileType::Directory
        } else if value.is_symlink {
            FileType::Symlink
        } else if value.is_file && has_text_extension(extension(value.file_name.as_str())) {
            FileType::Text
        } else {
            FileType::Unknown
        }
    }
}

impl<'a> FromSpecImpl<&'a DirEntryInfo> for FileType {
    open spec fn obeys_from_spec() -> bool {
        true
    }

    open spec fn from_spec(value: &'a DirEntryInfo) -> FileType {
        classification(
            value.is_dir,
            value.is_symlink,
            value.is_file,
            encode_utf8(value.file_name@),
        )
    }
}

} // verus!
