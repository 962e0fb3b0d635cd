use file_browser::{
    DirContent, DirEntryInfo, Entry, FileData, FileManager, FileType, Intent, PreviewSource,
};

fn child(name: &str, is_dir: bool) -> DirEntryInfo {
    DirEntryInfo {
        path: format!("/w/{}", name),
        file_name: name.to_string(),
        is_dir,
        is_symlink: false,
        is_file: !is_dir,
    }
}

fn manager(names: &[&str]) -> FileManager {
    let found = names.iter().map(|n| child(n, false)).collect();
    FileManager::new(DirContent::new("/w".to_string(), Ok(found)).unwrap())
}

fn label(entry: &Entry) -> FileData {
    FileData::Text(format!("preview of {}", entry.path))
}

#[test]
fn preview_is_built_from_the_entry_under_the_cursor() {
    let mut m = manager(&["a.md", "b.md"]);
    m.apply(Intent::MoveDown);
    let mut seen = None;
    let preview = m.preview(|entry| {
        seen = Some((entry.path.clone(), entry.file_name.clone(), entry.ty));
        label(entry)
    });
    assert_eq!(preview, Some(&FileData::Text("preview of /w/b.md".to_string())));
    assert_eq!(seen, Some(("/w/b.md".to_string(), "b.md".to_string(), FileType::Text)));
}

#[test]
fn second_preview_of_an_entry_comes_from_the_cache() {
    let mut m = manager(&["a.md"]);
    m.preview(label);
    let preview = m.preview(|_| panic!("the preview is cached"));
    assert_eq!(preview, Some(&FileData::Text("preview of /w/a.md".to_string())));
}

#[test]
fn coming_back_within_five_entries_is_a_hit() {
    let mut m = manager(&["a", "b", "c", "d", "e"]);
    for _ in 0..5 {
        m.preview(label);
        m.apply(Intent::MoveDown);
    }
    for _ in 0..4 {
        m.apply(Intent::MoveUp);
    }
    assert_eq!(m.focused_entry().unwrap().file_name, "a");
    assert!(m.preview(|_| panic!("still cached")).is_some());
}

#[test]
fn sixth_entry_drops_the_first_preview() {
    let mut m = manager(&["a", "b", "c", "d", "e", "f"]);
    for _ in 0..6 {
        m.preview(label);
        m.apply(Intent::MoveDown);
    }
    for _ in 0..5 {
        m.apply(Intent::MoveUp);
    }
    assert_eq!(m.focused_entry().unwrap().file_name, "a");
    let mut rebuilt = false;
    m.preview(|entry| {
        rebuilt = true;
        label(entry)
    });
    assert!(rebuilt);
    m.apply(Intent::MoveDown);
    m.apply(Intent::MoveDown);
    assert_eq!(m.focused_entry().unwrap().file_name, "c");
    assert!(m.preview(|_| panic!("c is among the five latest")).is_some());
    m.apply(Intent::MoveUp);
    assert_eq!(m.focused_entry().unwrap().file_name, "b");
    let mut rebuilt = false;
    m.preview(|entry| {
        rebuilt = true;
        label(entry)
    });
    assert!(rebuilt);
}

#[test]
fn preview_leaves_cursor_and_marks_alone() {
    let mut m = manager(&["a", "b"]);
    m.apply(Intent::Mark);
    m.apply(Intent::MoveDown);
    m.preview(label);
    assert_eq!(m.cursor_pos().1, 1);
    assert_eq!(m.marked_count(), 1);
    assert_eq!(m.dir().children.len(), 2);
}

#[test]
fn builder_follows_the_source_of_the_entry() {
    let found = vec![child("dir", true), child("notes.md", false), child("pic.png", false)];
    let mut m = FileManager::new(DirContent::new("/w".to_string(), Ok(found)).unwrap());
    let mut previews = Vec::new();
    for _ in 0..3 {
        let preview = m.preview(|entry| match FileData::source(entry) {
            PreviewSource::Listing => {
                FileData::from_listing(entry.path.clone(), Ok(vec![child("inner.rs", false)]))
            }
            PreviewSource::Contents => FileData::from_contents(Ok("# notes".to_string())),
            PreviewSource::Nothing => FileData::Null,
        });
        previews.push(format!("{:?}", preview.unwrap()));
        m.apply(Intent::MoveDown);
    }
    assert!(previews[0].starts_with("Directory("));
    assert!(previews[0].contains("inner.rs"));
    assert_eq!(previews[1], "Text(\"# notes\")");
    assert_eq!(previews[2], "Null");
}
