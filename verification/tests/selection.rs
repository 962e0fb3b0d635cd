use file_browser::SelectionSet;

fn path(s: &str) -> String {
    s.to_string()
}

#[test]
fn new_selection_is_empty() {
    let selection = SelectionSet::new();
    assert!(selection.is_empty());
    assert_eq!(selection.len(), 0);
    assert!(!selection.contains(&path("/w/a")));
}

#[test]
fn toggle_marks_then_unmarks() {
    let mut selection = SelectionSet::new();
    assert!(selection.toggle(path("/w/a")));
    assert!(selection.contains(&path("/w/a")));
    assert_eq!(selection.len(), 1);
    assert!(!selection.toggle(path("/w/a")));
    assert!(!selection.contains(&path("/w/a")));
    assert!(selection.is_empty());
}

#[test]
fn path_is_marked_after_an_odd_number_of_toggles() {
    let mut selection = SelectionSet::new();
    let toggles = ["x", "y", "x", "z", "x", "y", "w", "w", "w"];
    for p in toggles {
        selection.toggle(path(p));
    }
    for (p, times) in [("x", 3), ("y", 2), ("z", 1), ("w", 3), ("never", 0)] {
        assert_eq!(selection.contains(&path(p)), times % 2 == 1, "{}", p);
    }
    assert_eq!(selection.len(), 3);
}

#[test]
fn selection_holds_no_path_twice() {
    let mut selection = SelectionSet::new();
    selection.toggle(path("a"));
    selection.toggle(path("b"));
    selection.toggle(path("a"));
    selection.toggle(path("a"));
    assert_eq!(selection.len(), 2);
    let mut drained = selection.drain();
    drained.sort();
    assert_eq!(drained, ["a", "b"]);
}

#[test]
fn drain_returns_everything_and_leaves_nothing() {
    let mut selection = SelectionSet::new();
    for p in ["/w/x", "/w/y", "/w/z"] {
        selection.toggle(path(p));
    }
    let mut drained = selection.drain();
    drained.sort();
    assert_eq!(drained, ["/w/x", "/w/y", "/w/z"]);
    assert!(selection.is_empty());
    assert_eq!(selection.len(), 0);
    assert!(!selection.contains(&path("/w/x")));
    assert!(selection.drain().is_empty());
}

#[test]
fn paths_are_compared_exactly() {
    let mut selection = SelectionSet::new();
    selection.toggle(path("/w/a"));
    assert!(!selection.contains(&path("/w/A")));
    assert!(!selection.contains(&path("/w/a/")));
    assert!(!selection.contains(&path("/w")));
    assert!(selection.toggle(path("/w/A")));
    assert_eq!(selection.len(), 2);
}
