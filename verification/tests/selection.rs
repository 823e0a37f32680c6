use eden_explorer::actions::range_select_focus;
use eden_explorer::selection::{
    find_row, position_in_view, select_position, view_is_filtered, Selection,
};
use eden_explorer::sorting::FileItem;

fn entry(path: &str) -> FileItem {
    FileItem::new(
        path.rsplit('/').next().unwrap().to_string(),
        path.to_string(),
        false,
        false,
        None,
        None,
        None,
        None,
        None,
        None,
        None,
        None,
    )
}

fn listing() -> Vec<FileItem> {
    vec![entry("/d/a"), entry("/d/b"), entry("/d/c"), entry("/d/d")]
}

#[test]
fn selecting_sets_anchor_and_focus() {
    let mut s = Selection::new();
    s.select("/d/b".to_string(), Some(1));
    assert_eq!(s.selected, vec!["/d/b".to_string()]);
    assert_eq!((s.anchor, s.focus), (Some(1), Some(1)));
    s.select("/d/b/".to_string(), None);
    assert_eq!(s.selected, vec!["/d/b".to_string()]);
    assert_eq!((s.anchor, s.focus), (Some(1), Some(1)));
    s.select("/d/c".to_string(), Some(2));
    assert_eq!(s.selected.len(), 2);
    assert_eq!(s.anchor, Some(2));
}

#[test]
fn deselecting_removes_the_path() {
    let mut s = Selection::new();
    s.select("/d/a".to_string(), Some(0));
    s.select("/d/b".to_string(), Some(1));
    s.deselect("/d/a");
    assert_eq!(s.selected, vec!["/d/b".to_string()]);
    assert_eq!(s.anchor, Some(1));
    s.clear();
    assert!(s.selected.is_empty());
}

#[test]
fn select_all_and_ranges_replace_the_selection() {
    let mut s = Selection::new();
    s.select("/d/x".to_string(), Some(3));
    s.select_only(vec!["/d/a".to_string(), "/d/b".to_string(), "/d/a".to_string()]);
    assert_eq!(s.selected, vec!["/d/a".to_string(), "/d/b".to_string()]);
    s.range_select(vec!["/d/c".to_string(), "/d/d".to_string()], Some(3));
    assert_eq!(s.selected, vec!["/d/c".to_string(), "/d/d".to_string()]);
    assert_eq!((s.anchor, s.focus), (Some(3), Some(3)));
    s.range_select(vec![], None);
    assert!(s.selected.is_empty());
    assert_eq!(s.focus, Some(3));
}

#[test]
fn rows_of_a_filtered_view() {
    let files = listing();
    let rows = vec![3, 1];
    assert_eq!(find_row(&files, &rows, "/d/b"), Some(1));
    assert_eq!(find_row(&files, &rows, "/d/a"), None);
    assert_eq!(select_position(&files, &rows, "/d/d"), Some(0));
    assert_eq!(select_position(&files, &rows, "/d/c"), Some(2));
    assert_eq!(select_position(&files, &rows, "/d/zz"), None);
}

#[test]
fn filtered_views() {
    assert!(!view_is_filtered(false, "abc", 4, 4));
    assert!(!view_is_filtered(true, "", 4, 4));
    assert!(view_is_filtered(true, "a", 4, 4));
    assert!(view_is_filtered(false, "", 2, 4));
}

#[test]
fn range_selection_positions_in_filtered_and_whole_views() {
    let files = listing();
    let rows = vec![3, 1, 0];
    assert_eq!(position_in_view(&files, &rows, true, "/d/a"), Some(2));
    assert_eq!(position_in_view(&files, &rows, false, "/d/a"), Some(0));
    assert_eq!(position_in_view(&files, &rows, true, "/d/c"), None);
    // Anchor at row 1, range from /d/b (row 1) to /d/a (row 2): moving down.
    let first = position_in_view(&files, &rows, true, "/d/b");
    let last = position_in_view(&files, &rows, true, "/d/a");
    assert_eq!(range_select_focus(Some(1), 2, first, last), Some(2));
}
