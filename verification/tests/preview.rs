use file_browser::{DirEntryInfo, Entry, FileData, FileType, IoError, PreviewCache, PreviewSource};

fn entry(name: &str, ty: FileType) -> Entry {
    Entry { path: format!("/w/{}", name), file_name: name.to_string(), ty }
}

fn text(s: &str) -> FileData {
    FileData::Text(s.to_string())
}

fn access(cache: &mut PreviewCache, path: &str) {
    cache.get_or_build(path.to_string(), || FileData::Text(path.to_string()));
}

#[test]
fn directory_preview_needs_a_listing() {
    assert_eq!(FileData::source(&entry("src", FileType::Directory)), PreviewSource::Listing);
}

#[test]
fn text_preview_needs_the_contents() {
    assert_eq!(FileData::source(&entry("a.md", FileType::Text)), PreviewSource::Contents);
}

#[test]
fn other_kinds_need_nothing() {
    for ty in [FileType::Unknown, FileType::Symlink, FileType::Image, FileType::Video] {
        assert_eq!(FileData::source(&entry("x", ty)), PreviewSource::Nothing);
    }
}

#[test]
fn listing_preview_holds_the_sorted_directory() {
    let found = vec![
        DirEntryInfo {
            path: "/w/src/z.rs".to_string(),
            file_name: "z.rs".to_string(),
            is_dir: false,
            is_symlink: false,
            is_file: true,
        },
        DirEntryInfo {
            path: "/w/src/bin".to_string(),
            file_name: "bin".to_string(),
            is_dir: true,
            is_symlink: false,
            is_file: false,
        },
    ];
    match FileData::from_listing("/w/src".to_string(), Ok(found)) {
        FileData::Directory(dir) => {
            assert_eq!(dir.path, "/w/src");
            let names: Vec<&str> = dir.children.iter().map(|e| e.file_name.as_str()).collect();
            assert_eq!(names, ["bin", "z.rs"]);
        }
        other => panic!("expected a listing, got {:?}", other),
    }
}

#[test]
fn failed_listing_becomes_error_preview() {
    let preview = FileData::from_listing(
        "/w/locked".to_string(),
        Err(IoError { message: "Permission denied (os error 13)".to_string() }),
    );
    assert_eq!(preview, FileData::Error("Permission denied (os error 13)".to_string()));
}

#[test]
fn read_contents_become_text_preview() {
    assert_eq!(FileData::from_contents(Ok("line one\nline two\n".to_string())), text("line one\nline two\n"));
    assert_eq!(FileData::from_contents(Ok(String::new())), text(""));
}

#[test]
fn failed_read_becomes_error_preview() {
    let preview = FileData::from_contents(Err(IoError { message: "stream did not contain valid UTF-8".to_string() }));
    assert_eq!(preview, FileData::Error("stream did not contain valid UTF-8".to_string()));
}

#[test]
fn new_cache_is_empty() {
    let cache = PreviewCache::new(5);
    assert_eq!(cache.len(), 0);
    assert!(!cache.contains(&"/w/a".to_string()));
}

#[test]
fn cache_of_two_drops_the_first_of_three() {
    let mut cache = PreviewCache::new(2);
    access(&mut cache, "p1");
    access(&mut cache, "p2");
    access(&mut cache, "p3");
    assert_eq!(cache.len(), 2);
    assert!(!cache.contains(&"p1".to_string()));
    assert!(cache.contains(&"p2".to_string()));
    assert!(cache.contains(&"p3".to_string()));
}

#[test]
fn miss_builds_and_returns_the_new_preview() {
    let mut cache = PreviewCache::new(2);
    let preview = cache.get_or_build("/w/a.md".to_string(), || text("fresh"));
    assert_eq!(*preview, text("fresh"));
    assert_eq!(cache.len(), 1);
    assert!(cache.contains(&"/w/a.md".to_string()));
}

#[test]
fn hit_returns_the_cached_preview_without_building() {
    let mut cache = PreviewCache::new(2);
    cache.get_or_build("/w/a.md".to_string(), || text("first"));
    let mut built_again = false;
    let preview = cache.get_or_build("/w/a.md".to_string(), || {
        built_again = true;
        text("second")
    });
    assert_eq!(*preview, text("first"));
    assert!(!built_again);
    assert_eq!(cache.len(), 1);
}

#[test]
fn hit_refreshes_recency() {
    let mut cache = PreviewCache::new(2);
    access(&mut cache, "p1");
    access(&mut cache, "p2");
    access(&mut cache, "p1");
    access(&mut cache, "p3");
    assert!(cache.contains(&"p1".to_string()));
    assert!(!cache.contains(&"p2".to_string()));
    assert!(cache.contains(&"p3".to_string()));
}

#[test]
fn asking_whether_cached_does_not_refresh_recency() {
    let mut cache = PreviewCache::new(2);
    access(&mut cache, "p1");
    access(&mut cache, "p2");
    assert!(cache.contains(&"p1".to_string()));
    access(&mut cache, "p3");
    assert!(!cache.contains(&"p1".to_string()));
    assert!(cache.contains(&"p2".to_string()));
}

#[test]
fn cache_never_grows_past_its_capacity() {
    for capacity in 1..=5usize {
        let mut cache = PreviewCache::new(capacity);
        for step in 0..40usize {
            let path = format!("p{}", (step * 7) % 11);
            access(&mut cache, &path);
            assert!(cache.len() <= capacity);
            assert!(cache.contains(&path));
        }
        assert_eq!(cache.len(), capacity);
    }
}

#[test]
fn cache_of_one_holds_only_the_latest() {
    let mut cache = PreviewCache::new(1);
    access(&mut cache, "a");
    access(&mut cache, "b");
    assert_eq!(cache.len(), 1);
    assert!(!cache.contains(&"a".to_string()));
    assert!(cache.contains(&"b".to_string()));
    let again = cache.get_or_build("a".to_string(), || text("rebuilt"));
    assert_eq!(*again, text("rebuilt"));
}

#[test]
fn cache_holds_the_most_recent_distinct_paths() {
    let mut cache = PreviewCache::new(3);
    for path in ["a", "b", "c", "a", "d", "b", "e"] {
        access(&mut cache, path);
    }
    assert_eq!(cache.len(), 3);
    for (path, held) in [("e", true), ("b", true), ("d", true), ("a", false), ("c", false)] {
        assert_eq!(cache.contains(&path.to_string()), held, "{}", path);
    }
}

#[test]
fn returning_within_the_window_is_a_hit() {
    let mut cache = PreviewCache::new(5);
    for path in ["a", "b", "c", "d", "e"] {
        access(&mut cache, path);
    }
    let mut rebuilt = false;
    let preview = cache.get_or_build("a".to_string(), || {
        rebuilt = true;
        FileData::Null
    });
    assert_eq!(*preview, text("a"));
    assert!(!rebuilt);
    assert_eq!(cache.len(), 5);
}
