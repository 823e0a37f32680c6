use eden_explorer::listing::{
    apply_size_updates, listing_source, receive_batch, reset_view, ListingSource, LoadState,
    SizeRequests, SizeUpdate, RECEIVE_BATCH_LIMIT, SIZE_REQUESTS_PER_FRAME,
};
use eden_explorer::selection::Selection;
use eden_explorer::sorting::{FileItem, ListingOrder, SortColumn};

fn item(name: &str, is_dir: bool, size: Option<u64>) -> FileItem {
    FileItem::new(
        name.to_string(),
        format!("/d/{name}"),
        is_dir,
        false,
        None,
        size,
        None,
        None,
        None,
        None,
        None,
        None,
    )
}

fn names(files: &[FileItem]) -> Vec<&str> {
    files.iter().map(|f| f.name.as_str()).collect()
}

#[test]
fn folders_are_requested_once_in_arrival_order() {
    let mut r = SizeRequests::new();
    assert!(r.schedule("/d/a".to_string()));
    assert!(r.schedule("/d/b".to_string()));
    assert!(!r.schedule("/d/a".to_string()));
    assert!(!r.schedule("/d/a/".to_string()));
    assert_eq!(r.pending, vec!["/d/a".to_string(), "/d/b".to_string()]);
    assert_eq!(r.queue, vec!["/d/a".to_string(), "/d/b".to_string()]);
}

#[test]
fn requests_go_out_six_per_frame() {
    assert_eq!(SIZE_REQUESTS_PER_FRAME, 6);
    let mut r = SizeRequests::new();
    for k in 0..8 {
        r.schedule(format!("/d/{k}"));
    }
    let first = r.next_batch();
    assert_eq!(first, (0..6).map(|k| format!("/d/{k}")).collect::<Vec<_>>());
    let second = r.next_batch();
    assert_eq!(second, vec!["/d/6".to_string(), "/d/7".to_string()]);
    assert!(r.next_batch().is_empty());
    assert_eq!(r.pending.len(), 8);
}

#[test]
fn finished_folders_leave_the_pending_set() {
    let mut r = SizeRequests::new();
    r.schedule("/d/a".to_string());
    r.schedule("/d/b".to_string());
    r.finish("/d/a");
    assert_eq!(r.pending, vec!["/d/b".to_string()]);
    assert_eq!(r.queue.len(), 2);
    assert!(r.schedule("/d/a".to_string()));
}

#[test]
fn a_received_batch_is_merged_sorted_and_its_folders_requested() {
    let mut files = vec![item("m", false, Some(1))];
    let mut r = SizeRequests::new();
    let batch = vec![item("z", true, None), item("a", false, Some(2)), item("c", true, None)];
    let mut load = LoadState { receiving: true, loading: true, sizing: true };
    let changed = receive_batch(
        &mut files, &mut r, &mut load, batch, false, true, SortColumn::Name, true,
        ListingOrder::Windows,
    );
    assert!(changed);
    assert_eq!(load, LoadState { receiving: true, loading: true, sizing: true });
    assert_eq!(names(&files), vec!["c", "z", "a", "m"]);
    assert_eq!(r.queue, vec!["/d/z".to_string(), "/d/c".to_string()]);
}

#[test]
fn without_folder_scanning_nothing_is_requested() {
    let mut files = Vec::new();
    let mut r = SizeRequests::new();
    let batch = vec![item("z", true, None), item("a", false, None)];
    let mut load = LoadState { receiving: true, loading: true, sizing: false };
    receive_batch(
        &mut files, &mut r, &mut load, batch, false, false, SortColumn::Name, false,
        ListingOrder::Linux,
    );
    assert_eq!(names(&files), vec!["z", "a"]);
    assert!(r.pending.is_empty());
    assert!(r.queue.is_empty());
}

#[test]
fn reported_sizes_update_entries_and_resort() {
    let mut files = vec![item("a", true, None), item("b", true, None), item("f", false, Some(5))];
    let mut r = SizeRequests::new();
    r.schedule("/d/a".to_string());
    r.schedule("/d/b".to_string());
    let updates = vec![
        SizeUpdate { path: "/d/a".to_string(), size: 900, done: false },
        SizeUpdate { path: "/d/b".to_string(), size: 10, done: true },
        SizeUpdate { path: "/d/gone".to_string(), size: 7, done: true },
    ];
    let changed =
        apply_size_updates(&mut files, &mut r, updates, SortColumn::Size, true, ListingOrder::Linux);
    assert!(changed);
    assert_eq!(names(&files), vec!["f", "b", "a"]);
    assert_eq!(files[2].file_size, Some(900));
    assert_eq!(r.pending, vec!["/d/a".to_string()]);
}

#[test]
fn reports_for_unlisted_folders_change_nothing() {
    let mut files = vec![item("b", false, Some(3)), item("a", false, Some(9))];
    let mut r = SizeRequests::new();
    let updates = vec![SizeUpdate { path: "/elsewhere".to_string(), size: 1, done: true }];
    let changed =
        apply_size_updates(&mut files, &mut r, updates, SortColumn::Name, true, ListingOrder::Windows);
    assert!(!changed);
    assert_eq!(names(&files), vec!["b", "a"]);
}

#[test]
fn where_a_listing_comes_from() {
    assert_eq!(listing_source(true, true, true), ListingSource::UnsupportedDrive);
    assert_eq!(listing_source(false, true, true), ListingSource::RecycleBin);
    assert_eq!(listing_source(false, false, true), ListingSource::Drives);
    assert_eq!(listing_source(false, false, false), ListingSource::Folder);
}

#[test]
fn a_reset_view_is_empty() {
    let mut files = vec![item("a", false, None)];
    let mut r = SizeRequests::new();
    r.schedule("/d/a".to_string());
    let mut s = Selection::new();
    s.select("/d/a".to_string(), Some(0));
    let load = reset_view(&mut files, &mut r, &mut s, ListingSource::Drives, true);
    assert_eq!(load, LoadState { receiving: false, loading: false, sizing: false });
    assert!(files.is_empty());
    assert!(r.pending.is_empty() && r.queue.is_empty());
    assert!(s.selected.is_empty());
    assert_eq!((s.anchor, s.focus), (None, None));
}

#[test]
fn a_folder_view_starts_loading_in_the_background() {
    let mut files = Vec::new();
    let mut r = SizeRequests::new();
    let mut s = Selection::new();
    let load = reset_view(&mut files, &mut r, &mut s, ListingSource::Folder, true);
    assert_eq!(load, LoadState { receiving: true, loading: true, sizing: true });
    let load = reset_view(&mut files, &mut r, &mut s, ListingSource::Folder, false);
    assert_eq!(load, LoadState { receiving: true, loading: true, sizing: false });
    let load = reset_view(&mut files, &mut r, &mut s, ListingSource::RecycleBin, true);
    assert_eq!(load, LoadState { receiving: false, loading: false, sizing: false });
}

#[test]
fn a_finished_loader_ends_the_loading() {
    let mut files = vec![item("b", false, None)];
    let mut r = SizeRequests::new();
    let mut load = LoadState { receiving: true, loading: true, sizing: true };
    let changed = receive_batch(
        &mut files, &mut r, &mut load, Vec::new(), true, true, SortColumn::Name, true,
        ListingOrder::Windows,
    );
    assert!(changed);
    assert_eq!(load, LoadState { receiving: false, loading: false, sizing: true });
    assert_eq!(names(&files), vec!["b"]);
}

#[test]
fn an_empty_frame_changes_nothing() {
    let mut files = vec![item("b", false, None), item("a", false, None)];
    let mut r = SizeRequests::new();
    let mut load = LoadState { receiving: true, loading: true, sizing: false };
    let changed = receive_batch(
        &mut files, &mut r, &mut load, Vec::new(), false, false, SortColumn::Name, true,
        ListingOrder::Windows,
    );
    assert!(!changed);
    assert_eq!(names(&files), vec!["b", "a"]);
    assert_eq!(load, LoadState { receiving: true, loading: true, sizing: false });
}

#[test]
fn a_view_not_receiving_ignores_entries() {
    let mut files = Vec::new();
    let mut r = SizeRequests::new();
    let mut load = LoadState { receiving: false, loading: false, sizing: false };
    let changed = receive_batch(
        &mut files, &mut r, &mut load, vec![item("a", true, None)], true, true, SortColumn::Name,
        true, ListingOrder::Windows,
    );
    assert!(!changed);
    assert!(files.is_empty());
    assert!(r.queue.is_empty());
    assert_eq!(RECEIVE_BATCH_LIMIT, 128);
}
