use file_browser::dir_content::sort_entries;
use file_browser::{DirContent, DirEntryInfo, Entry, FileType, IoError};

fn file(dir: &str, name: &str) -> DirEntryInfo {
    DirEntryInfo {
        path: format!("{}/{}", dir, name),
        file_name: name.to_string(),
        is_dir: false,
        is_symlink: false,
        is_file: true,
    }
}

fn folder(dir: &str, name: &str) -> DirEntryInfo {
    DirEntryInfo {
        path: format!("{}/{}", dir, name),
        file_name: name.to_string(),
        is_dir: true,
        is_symlink: false,
        is_file: false,
    }
}

fn names(entries: &[&Entry]) -> Vec<String> {
    entries.iter().map(|e| e.file_name.clone()).collect()
}

fn stored_names(dir: &DirContent) -> Vec<String> {
    dir.children.iter().map(|e| e.file_name.clone()).collect()
}

fn is_in_listing_order(entries: &[Entry]) -> bool {
    entries.windows(2).all(|w| {
        let (a, b) = (&w[0], &w[1]);
        if a.is_dir() == b.is_dir() {
            a.file_name.as_bytes() <= b.file_name.as_bytes()
        } else {
            a.is_dir()
        }
    })
}

#[test]
fn listing_with_a_directory_and_a_hidden_file() {
    let found = vec![
        file("/w", "b.txt"),
        folder("/w", "A"),
        file("/w", ".hidden"),
        file("/w", "a.txt"),
    ];
    let dir = DirContent::new("/w".to_string(), Ok(found)).unwrap();
    assert_eq!(dir.path, "/w");
    assert_eq!(names(&dir.visible(true)), ["A", ".hidden", "a.txt", "b.txt"]);
    assert_eq!(names(&dir.visible(false)), ["A", "a.txt", "b.txt"]);
}

#[test]
fn directories_come_before_everything_else() {
    let found = vec![
        file("/w", "0.rs"),
        folder("/w", "zz"),
        file("/w", "Aa"),
        folder("/w", "mm"),
        folder("/w", ".git"),
    ];
    let dir = DirContent::new("/w".to_string(), Ok(found)).unwrap();
    assert_eq!(stored_names(&dir), [".git", "mm", "zz", "0.rs", "Aa"]);
    assert!(is_in_listing_order(&dir.children));
}

#[test]
fn names_sort_by_bytes_not_by_alphabet() {
    let found = vec![file("/w", "b"), file("/w", "a"), file("/w", "B"), file("/w", "_"), file("/w", "10"), file("/w", "9")];
    let dir = DirContent::new("/w".to_string(), Ok(found)).unwrap();
    assert_eq!(stored_names(&dir), ["10", "9", "B", "_", "a", "b"]);
}

#[test]
fn symlink_to_directory_sorts_with_directories() {
    let mut link = folder("/w", "link");
    link.is_symlink = true;
    let mut plain_link = file("/w", "alink");
    plain_link.is_symlink = true;
    plain_link.is_file = false;
    let dir = DirContent::new("/w".to_string(), Ok(vec![plain_link, file("/w", "b"), link])).unwrap();
    assert_eq!(stored_names(&dir), ["link", "alink", "b"]);
    assert_eq!(dir.children[0].ty, FileType::Directory);
    assert_eq!(dir.children[1].ty, FileType::Symlink);
}

#[test]
fn sort_keeps_every_entry_once() {
    let found = vec![
        file("/w", "c.md"),
        folder("/w", "b"),
        file("/w", "a.png"),
        folder("/w", "d"),
        file("/w", "c.md.bak"),
    ];
    let sorted = sort_entries(found);
    assert_eq!(sorted.len(), 5);
    let mut paths: Vec<&str> = sorted.iter().map(|e| e.path.as_str()).collect();
    paths.sort();
    assert_eq!(paths, ["/w/a.png", "/w/b", "/w/c.md", "/w/c.md.bak", "/w/d"]);
    assert!(is_in_listing_order(&sorted));
}

#[test]
fn entries_of_equal_rank_keep_scan_order() {
    let found = vec![
        file("/second", "same"),
        file("/w", "other"),
        file("/first", "same"),
        file("/third", "same"),
    ];
    let sorted = sort_entries(found);
    let paths: Vec<&str> = sorted.iter().map(|e| e.path.as_str()).collect();
    assert_eq!(paths, ["/w/other", "/second/same", "/first/same", "/third/same"]);
}

#[test]
fn sort_of_sorted_and_reversed_input() {
    let forward = sort_entries(vec![file("/w", "a"), file("/w", "b"), file("/w", "c")]);
    let backward = sort_entries(vec![file("/w", "c"), file("/w", "b"), file("/w", "a")]);
    assert_eq!(forward, backward);
    let expected: Vec<String> = ["a", "b", "c"].iter().map(|s| s.to_string()).collect();
    assert_eq!(forward.iter().map(|e| e.file_name.clone()).collect::<Vec<_>>(), expected);
}

#[test]
fn empty_directory_gives_empty_model() {
    let dir = DirContent::new("/empty".to_string(), Ok(Vec::new())).unwrap();
    assert_eq!(dir.path, "/empty");
    assert!(dir.children.is_empty());
    assert!(dir.visible(true).is_empty());
    assert!(dir.visible(false).is_empty());
}

#[test]
fn failed_scan_gives_its_error_back() {
    let failure = IoError { message: "permission denied".to_string() };
    let result = DirContent::new("/root".to_string(), Err(failure));
    assert_eq!(result, Err(IoError { message: "permission denied".to_string() }));
}

#[test]
fn entries_are_classified_while_building() {
    let dir = DirContent::new(
        "/w".to_string(),
        Ok(vec![file("/w", "main.rs"), file("/w", "logo.png"), folder("/w", "src")]),
    )
    .unwrap();
    let kinds: Vec<FileType> = dir.children.iter().map(|e| e.ty).collect();
    assert_eq!(kinds, [FileType::Directory, FileType::Unknown, FileType::Text]);
}

#[test]
fn visible_keeps_stored_order_and_does_not_change_the_model() {
    let dir = DirContent::new(
        "/w".to_string(),
        Ok(vec![file("/w", ".z"), folder("/w", ".cache"), file("/w", "k"), folder("/w", "bin")]),
    )
    .unwrap();
    let before = stored_names(&dir);
    assert_eq!(names(&dir.visible(false)), ["bin", "k"]);
    assert_eq!(names(&dir.visible(true)), [".cache", "bin", ".z", "k"]);
    assert_eq!(names(&dir.visible(false)), ["bin", "k"]);
    assert_eq!(stored_names(&dir), before);
}

#[test]
fn all_hidden_listing_shows_nothing_when_hidden_are_suppressed() {
    let dir = DirContent::new("/w".to_string(), Ok(vec![file("/w", ".a"), folder("/w", ".b")])).unwrap();
    assert!(dir.visible(false).is_empty());
    assert_eq!(names(&dir.visible(true)), [".b", ".a"]);
}
