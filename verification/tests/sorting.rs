use eden_explorer::sorting::{compare_items, sort_files, FileItem, ListingOrder, SortColumn};

fn item(name: &str, is_dir: bool, size: u64) -> FileItem {
    FileItem::new(
        name.to_string(),
        name.to_string(),
        is_dir,
        false,
        None,
        Some(size),
        None,
        None,
        None,
        None,
        None,
        None,
    )
}

fn names(files: &[FileItem]) -> Vec<String> {
    files.iter().map(|f| f.name.clone()).collect()
}

#[test]
fn windows_style_keeps_folders_first_in_both_directions() {
    let mut files = vec![item("a.txt", false, 1), item("z", true, 2)];
    sort_files(&mut files, SortColumn::Name, true, ListingOrder::Windows);
    assert!(files[0].is_dir);
    sort_files(&mut files, SortColumn::Name, false, ListingOrder::Windows);
    assert!(files[0].is_dir);
}

#[test]
fn linux_style_mixes_items_using_selected_column() {
    let mut files = vec![item("folder", true, 9), item("file", false, 1)];
    sort_files(&mut files, SortColumn::Name, true, ListingOrder::Linux);
    assert_eq!(files[0].name, "file");
    sort_files(&mut files, SortColumn::Size, true, ListingOrder::Linux);
    assert_eq!(files[0].name, "file");
    sort_files(&mut files, SortColumn::Size, false, ListingOrder::Linux);
    assert_eq!(files[0].name, "folder");
}

#[test]
fn empty_and_single_inputs_are_unchanged() {
    let mut empty = Vec::new();
    sort_files(&mut empty, SortColumn::Name, true, ListingOrder::Linux);
    let mut single = vec![item("one", false, 1)];
    sort_files(&mut single, SortColumn::Name, false, ListingOrder::Windows);
    assert_eq!(single.len(), 1);
}

#[test]
fn name_sort_ignores_case() {
    let mut files = vec![item("b", false, 0), item("A", false, 0), item("C", false, 0)];
    sort_files(&mut files, SortColumn::Name, true, ListingOrder::Linux);
    assert_eq!(names(&files), vec!["A", "b", "C"]);
    sort_files(&mut files, SortColumn::Name, false, ListingOrder::Linux);
    assert_eq!(names(&files), vec!["C", "b", "A"]);
}

#[test]
fn equal_entries_keep_their_order() {
    let mut files = vec![
        item("x", false, 5),
        item("y", false, 1),
        item("z", false, 5),
        item("w", false, 1),
    ];
    sort_files(&mut files, SortColumn::Size, true, ListingOrder::Linux);
    assert_eq!(names(&files), vec!["y", "w", "x", "z"]);
    sort_files(&mut files, SortColumn::Size, false, ListingOrder::Linux);
    assert_eq!(names(&files), vec!["x", "z", "y", "w"]);
}

#[test]
fn sorting_twice_changes_nothing() {
    let mut files = vec![
        item("c.txt", false, 3),
        item("dir", true, 0),
        item("a.txt", false, 1),
    ];
    sort_files(&mut files, SortColumn::Name, true, ListingOrder::Windows);
    let once = names(&files);
    sort_files(&mut files, SortColumn::Name, true, ListingOrder::Windows);
    assert_eq!(names(&files), once);
    assert_eq!(once, vec!["dir", "a.txt", "c.txt"]);
}

#[test]
fn type_column_groups_folders_then_orders_by_extension() {
    let mut files = vec![
        item("song.MP3", false, 0),
        item("b-dir", true, 0),
        item("notes.txt", false, 0),
        item("A-dir", true, 0),
        item("archive.zip", false, 0),
        item("README", false, 0),
    ];
    sort_files(&mut files, SortColumn::Type, true, ListingOrder::Linux);
    assert_eq!(
        names(&files),
        vec!["A-dir", "b-dir", "README", "song.MP3", "notes.txt", "archive.zip"]
    );
}

#[test]
fn missing_timestamps_and_sizes_sort_first() {
    let mut a = item("a", false, 0);
    a.modified_time_raw = Some(10);
    let mut b = item("b", false, 0);
    b.modified_time_raw = None;
    let mut c = item("c", false, 0);
    c.modified_time_raw = Some(2);
    let mut files = vec![a, b, c];
    sort_files(&mut files, SortColumn::Modified, true, ListingOrder::Linux);
    assert_eq!(names(&files), vec!["b", "c", "a"]);

    let mut d = item("d", false, 0);
    d.file_size = None;
    let e = item("e", false, 1);
    assert_eq!(compare_items(&d, &e, SortColumn::Size, true, ListingOrder::Linux), -1);
    assert_eq!(compare_items(&e, &d, SortColumn::Size, true, ListingOrder::Linux), 1);
}

#[test]
fn deleted_and_created_columns_use_raw_times() {
    let mut a = item("a", false, 0);
    a.deleted_time_raw = Some(5);
    a.created_time_raw = Some(1);
    let mut b = item("b", false, 0);
    b.deleted_time_raw = Some(3);
    b.created_time_raw = Some(9);
    let mut files = vec![a, b];
    sort_files(&mut files, SortColumn::Deleted, true, ListingOrder::Linux);
    assert_eq!(names(&files), vec!["b", "a"]);
    sort_files(&mut files, SortColumn::Created, true, ListingOrder::Linux);
    assert_eq!(names(&files), vec!["a", "b"]);
}

#[test]
fn default_listing_order_is_windows() {
    assert!(matches!(ListingOrder::default(), ListingOrder::Windows));
}
