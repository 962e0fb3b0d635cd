use file_browser::file_type::{extension, has_text_extension};
use file_browser::{DirEntryInfo, Entry, FileType};

fn info(name: &str, is_dir: bool, is_symlink: bool, is_file: bool) -> DirEntryInfo {
    DirEntryInfo {
        path: format!("/base/{}", name),
        file_name: name.to_string(),
        is_dir,
        is_symlink,
        is_file,
    }
}

fn kind_of_file(name: &str) -> FileType {
    FileType::from(&info(name, false, false, true))
}

#[test]
fn directory_is_classified_first() {
    assert_eq!(FileType::from(&info("src", true, false, false)), FileType::Directory);
    assert_eq!(FileType::from(&info("link", true, true, false)), FileType::Directory);
    assert_eq!(FileType::from(&info("odd.rs", true, true, true)), FileType::Directory);
}

#[test]
fn symlink_comes_before_regular_file() {
    assert_eq!(FileType::from(&info("link", false, true, false)), FileType::Symlink);
    assert_eq!(FileType::from(&info("link.rs", false, true, true)), FileType::Symlink);
}

#[test]
fn every_text_extension_is_text() {
    for ext in ["asm", "lock", "md", "rs", "toml", "yaml", "yml", "wat"] {
        assert_eq!(kind_of_file(&format!("file.{}", ext)), FileType::Text);
    }
}

#[test]
fn empty_extension_is_text() {
    assert_eq!(kind_of_file("Makefile"), FileType::Text);
    assert_eq!(kind_of_file(".bashrc"), FileType::Text);
    assert_eq!(kind_of_file("trailing."), FileType::Text);
}

#[test]
fn other_extensions_are_unknown() {
    assert_eq!(kind_of_file("photo.png"), FileType::Unknown);
    assert_eq!(kind_of_file("notes.txt"), FileType::Unknown);
    assert_eq!(kind_of_file("clip.mp4"), FileType::Unknown);
    assert_eq!(kind_of_file("archive.tar.gz"), FileType::Unknown);
}

#[test]
fn extension_match_is_case_sensitive() {
    assert_eq!(kind_of_file("main.RS"), FileType::Unknown);
    assert_eq!(kind_of_file("README.MD"), FileType::Unknown);
    assert_eq!(kind_of_file("Cargo.Toml"), FileType::Unknown);
}

#[test]
fn extension_is_not_a_suffix_match() {
    assert_eq!(kind_of_file("file.xrs"), FileType::Unknown);
    assert_eq!(kind_of_file("file.r"), FileType::Unknown);
    assert_eq!(kind_of_file("rs"), FileType::Text);
}

#[test]
fn only_the_last_extension_counts() {
    assert_eq!(kind_of_file("archive.png.md"), FileType::Text);
    assert_eq!(kind_of_file("notes.md.bak"), FileType::Unknown);
    assert_eq!(kind_of_file(".config.toml"), FileType::Text);
}

#[test]
fn broken_or_special_entry_is_unknown() {
    assert_eq!(FileType::from(&info("socket", false, false, false)), FileType::Unknown);
    assert_eq!(FileType::from(&info("gone.rs", false, false, false)), FileType::Unknown);
}

#[test]
fn extension_is_what_follows_the_last_dot() {
    assert_eq!(extension("main.rs"), b"rs");
    assert_eq!(extension("a.b.rs"), b"rs");
    assert_eq!(extension("noext"), b"");
    assert_eq!(extension(".hidden"), b"");
    assert_eq!(extension(".a.b"), b"b");
    assert_eq!(extension("x."), b"");
    assert_eq!(extension(""), b"");
    assert_eq!(extension(".."), b"");
    assert_eq!(extension("caf\u{e9}.\u{e9}t\u{e9}"), "\u{e9}t\u{e9}".as_bytes());
}

#[test]
fn text_extension_list_is_exact() {
    assert!(has_text_extension(b""));
    assert!(has_text_extension(b"lock"));
    assert!(has_text_extension(b"yml"));
    assert!(!has_text_extension(b"yam"));
    assert!(!has_text_extension(b"locks"));
    assert!(!has_text_extension(b"txt"));
}

#[test]
fn entry_keeps_path_and_name_and_gets_its_kind() {
    let entry = Entry::from(info("lib.rs", false, false, true));
    assert_eq!(entry.path, "/base/lib.rs");
    assert_eq!(entry.file_name, "lib.rs");
    assert_eq!(entry.ty, FileType::Text);
    assert!(!entry.is_dir());
    let dir = Entry::from(info("src", true, false, false));
    assert_eq!(dir.ty, FileType::Directory);
    assert!(dir.is_dir());
}

#[test]
fn entry_is_hidden_when_name_starts_with_dot() {
    assert!(Entry::from(info(".git", true, false, false)).is_hidden());
    assert!(Entry::from(info(".", true, false, false)).is_hidden());
    assert!(!Entry::from(info("a.b", false, false, true)).is_hidden());
    assert!(!Entry::from(info("", false, false, true)).is_hidden());
}

#[test]
fn entry_clone_is_equal() {
    let entry = Entry::from(info("notes.md", false, false, true));
    assert_eq!(entry.clone(), entry);
}

#[test]
fn image_and_video_never_come_out() {
    let names = ["a.png", "b.jpg", "c.mp4", "d.mkv", "e", "f.rs", ".g", "h.", "i.gif.md"];
    for name in names {
        for flags in 0..8u8 {
            let kind = FileType::from(&info(name, flags & 1 != 0, flags & 2 != 0, flags & 4 != 0));
            assert_ne!(kind, FileType::Image);
            assert_ne!(kind, FileType::Video);
        }
    }
}
