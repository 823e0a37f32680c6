use eden_explorer::actions::{ItemViewerAction, ItemViewerContextAction};
use eden_explorer::config::ItemViewerHeaderColumn as C;
use eden_explorer::navigation::{History, Navigation};
use eden_explorer::selection::Selection;
use eden_explorer::sorting::{FileItem, ListingOrder, SortColumn};
use eden_explorer::config::ColumnOrders;
use eden_explorer::listing::{ListingSource, LoadState, SizeRequests};
use eden_explorer::viewer::{
    apply_column_order, apply_item_viewer_action, navigate_focused, paths_of_rows, FitRequest,
    NavOutcome, NavRequest, ShellRequest, ViewColumns, ViewState,
};
use eden_explorer::workspace::Workspace;

fn entry(path: &str, is_dir: bool, size: u64) -> FileItem {
    FileItem::new(
        path.rsplit('/').next().unwrap().to_string(),
        path.to_string(),
        is_dir,
        false,
        None,
        Some(size),
        None,
        None,
        None,
        None,
        None,
        None,
    )
}

fn view_at(path: &str) -> ViewState {
    ViewState {
        nav: Navigation::new(path.to_string()),
        files: vec![entry("/d/b", false, 2), entry("/d/a", false, 9), entry("/d/c", true, 1)],
        rows: vec![0, 1, 2],
        filter_active: false,
        filter_query: String::new(),
        filter_dirty: false,
        selection: Selection::new(),
        history: History::new(),
        navigation_selection: None,
        columns: vec![C::Type, C::Size, C::Modified],
        fit_request: None,
        layout_generation: 0,
        listing_order: ListingOrder::Windows,
    }
}

fn workspace() -> Workspace {
    Workspace::new("/d".to_string(), SortColumn::Name, true, vec![], vec![])
}

#[test]
fn going_into_a_folder_and_back_restores_the_selection() {
    let mut v = view_at("/d");
    assert_eq!(v.navigate(NavRequest::GoTo("/d/c".to_string())), NavOutcome::WentTo);
    assert_eq!(v.nav.current, "/d/c");
    assert_eq!(v.nav.back, vec!["/d".to_string()]);
    v.selection.select("/d/c/x".to_string(), Some(0));
    assert_eq!(v.navigate(NavRequest::Back), NavOutcome::WentBack);
    assert_eq!(v.nav.current, "/d");
    assert_eq!(v.nav.forward, vec!["/d/c".to_string()]);
    assert!(v.selection.selected.is_empty());
    assert_eq!((v.selection.anchor, v.selection.focus), (None, None));
    assert_eq!(v.navigation_selection, Some("/d/c".to_string()));
    assert_eq!(v.navigate(NavRequest::Forward), NavOutcome::WentForward);
    assert_eq!(v.nav.current, "/d/c");
    assert_eq!(v.navigate(NavRequest::Forward), NavOutcome::Stayed);
}

#[test]
fn going_up_records_where_the_view_came_from() {
    let mut v = view_at("/d/c");
    assert_eq!(v.navigate(NavRequest::Up), NavOutcome::WentUp);
    assert_eq!(v.nav.current, "/d");
    assert_eq!(v.navigation_selection, Some("/d/c".to_string()));
    let mut root = view_at("/");
    assert_eq!(root.navigate(NavRequest::Up), NavOutcome::Stayed);
    assert_eq!(root.nav.current, "/");
    let mut fresh = view_at("/d");
    assert_eq!(fresh.navigate(NavRequest::Back), NavOutcome::Stayed);
}

#[test]
fn history_keeps_the_latest_subfolder_per_folder() {
    let mut h = History::new();
    h.record("/d".to_string(), "/d/a".to_string());
    h.record("/e".to_string(), "/e/x".to_string());
    h.record("/d/".to_string(), "/d/b".to_string());
    assert_eq!(h.entries.len(), 2);
    assert_eq!(h.lookup("/d"), Some("/d/b".to_string()));
    assert_eq!(h.lookup("/e"), Some("/e/x".to_string()));
    assert_eq!(h.lookup("/f"), None);
}

#[test]
fn sorting_from_a_header_click() {
    let mut w = workspace();
    let mut v = view_at("/d");
    let r = apply_item_viewer_action(&mut w, &mut v, ItemViewerAction::Sort(SortColumn::Size), false);
    assert!(matches!(r.as_slice(), [ShellRequest::SaveSort(SortColumn::Size, true)]));
    let names: Vec<&str> = v.files.iter().map(|f| f.name.as_str()).collect();
    assert_eq!(names, vec!["c", "b", "a"]);
    assert_eq!(w.tabs[0].sort_column, SortColumn::Size);
}

#[test]
fn column_layout_actions() {
    let mut w = workspace();
    let mut v = view_at("/d");
    let r = apply_item_viewer_action(&mut w, &mut v, ItemViewerAction::ToggleColumnVisibility(C::Size), false);
    assert_eq!(v.columns, vec![C::Type, C::Modified]);
    assert!(matches!(r.as_slice(), [ShellRequest::StoreColumnOrder(o)] if o == &vec![C::Type, C::Modified]));
    apply_item_viewer_action(&mut w, &mut v, ItemViewerAction::ToggleColumnVisibility(C::Created), false);
    assert_eq!(v.columns, vec![C::Type, C::Modified, C::Created]);
    apply_item_viewer_action(&mut w, &mut v, ItemViewerAction::MoveColumnLeft(C::Modified), false);
    assert_eq!(v.columns, vec![C::Modified, C::Type, C::Created]);
    let r = apply_item_viewer_action(&mut w, &mut v, ItemViewerAction::MoveColumnLeft(C::Modified), false);
    assert!(r.is_empty());
    apply_item_viewer_action(&mut w, &mut v, ItemViewerAction::MoveColumnToEnd(C::Modified), false);
    assert_eq!(v.columns, vec![C::Type, C::Created, C::Modified]);
    apply_item_viewer_action(&mut w, &mut v, ItemViewerAction::MoveColumnToStart(C::Created), false);
    assert_eq!(v.columns, vec![C::Created, C::Type, C::Modified]);
    apply_item_viewer_action(&mut w, &mut v, ItemViewerAction::MoveColumnRight(C::Created), false);
    assert_eq!(v.columns, vec![C::Type, C::Created, C::Modified]);
    let before = v.layout_generation;
    apply_item_viewer_action(&mut w, &mut v, ItemViewerAction::FitColumn(C::Type), false);
    assert_eq!(v.fit_request, Some(FitRequest::Column(C::Type)));
    assert_eq!(v.layout_generation, before + 1);
    apply_item_viewer_action(&mut w, &mut v, ItemViewerAction::FitAllColumns, false);
    assert_eq!(v.fit_request, Some(FitRequest::All));
}

#[test]
fn selection_actions() {
    let mut w = workspace();
    let mut v = view_at("/d");
    apply_item_viewer_action(&mut w, &mut v, ItemViewerAction::Select("/d/a".to_string()), false);
    assert_eq!(v.selection.selected, vec!["/d/a".to_string()]);
    assert_eq!((v.selection.anchor, v.selection.focus), (Some(1), Some(1)));
    apply_item_viewer_action(&mut w, &mut v, ItemViewerAction::SelectAll, false);
    assert_eq!(v.selection.selected, paths_of_rows(&v.files, &v.rows));
    assert_eq!(v.selection.selected.len(), 3);
    apply_item_viewer_action(&mut w, &mut v, ItemViewerAction::Deselect("/d/b".to_string()), false);
    assert_eq!(v.selection.selected.len(), 2);
    apply_item_viewer_action(
        &mut w,
        &mut v,
        ItemViewerAction::RangeSelect(vec!["/d/a".to_string(), "/d/c".to_string()]),
        false,
    );
    assert_eq!(v.selection.selected, vec!["/d/a".to_string(), "/d/c".to_string()]);
    assert_eq!(v.selection.focus, Some(2));
    apply_item_viewer_action(&mut w, &mut v, ItemViewerAction::ReplaceSelection("/d/b".to_string()), false);
    assert_eq!(v.selection.selected, vec!["/d/b".to_string()]);
    assert_eq!(v.selection.anchor, Some(0));
    apply_item_viewer_action(&mut w, &mut v, ItemViewerAction::DeselectAll, false);
    assert!(v.selection.selected.is_empty());
}

#[test]
fn opening_a_folder_navigates_and_records_history() {
    let mut w = workspace();
    let mut v = view_at("/d");
    let r = apply_item_viewer_action(&mut w, &mut v, ItemViewerAction::Open("/d/c".to_string()), false);
    assert!(matches!(r.as_slice(), [ShellRequest::Reload]));
    assert_eq!(v.nav.current, "/d/c");
    assert_eq!(v.selection.selected, vec!["/d/c".to_string()]);
    assert!(v.filter_dirty && v.rows.is_empty());
    assert_eq!(v.history.lookup("/"), Some("/d".to_string()));
    assert_eq!(w.tabs[0].path, "/d/c");
    assert!(w.tab_infos_dirty);
}

#[test]
fn tabs_splits_and_requests() {
    let mut w = workspace();
    let mut v = view_at("/d");
    let r = apply_item_viewer_action(&mut w, &mut v, ItemViewerAction::OpenInNewTab("/e".to_string()), false);
    assert!(matches!(r.as_slice(), [ShellRequest::Reload]));
    assert_eq!(w.tabs.len(), 2);
    assert_eq!(w.active_tab, 1);
    let r = apply_item_viewer_action(&mut w, &mut v, ItemViewerAction::OpenInSplitView("/f".to_string()), false);
    assert!(matches!(r.as_slice(), [ShellRequest::LoadSplitView]));
    assert_eq!(w.tabs[1].split.as_ref().map(|s| s.path.as_str()), Some("/f"));
    let r = apply_item_viewer_action(&mut w, &mut v, ItemViewerAction::StartEdit("/d/a".to_string()), false);
    match r.as_slice() {
        [ShellRequest::StartRename(s)] => {
            assert_eq!((s.path.as_str(), s.new_name.as_str()), ("/d/a", "a"));
            assert!(s.should_focus && !s.validation_error_show);
        }
        other => panic!("unexpected {other:?}"),
    }
    let r = apply_item_viewer_action(&mut w, &mut v, ItemViewerAction::RefreshCurrentDirectory, false);
    assert!(matches!(r.as_slice(), [ShellRequest::ClearClipboardFiles, ShellRequest::Reload]));
    let r = apply_item_viewer_action(&mut w, &mut v, ItemViewerAction::OpenTerminal, false);
    assert!(matches!(r.as_slice(), [ShellRequest::OpenTerminal(p)] if p == "/d"));
    v.selection.select("/d/a".to_string(), Some(1));
    let r = apply_item_viewer_action(
        &mut w,
        &mut v,
        ItemViewerAction::MoveItems { sources: vec!["/d/a".to_string()], target_dir: "/e".to_string() },
        false,
    );
    assert!(matches!(r.as_slice(), [ShellRequest::MoveItems(_, t), ShellRequest::Reload] if t == "/e"));
    assert!(v.selection.selected.is_empty());
}

#[test]
fn the_recycle_bin_ignores_editing_actions() {
    let mut w = workspace();
    let mut v = view_at("/d");
    let r = apply_item_viewer_action(&mut w, &mut v, ItemViewerAction::Open("/d/c".to_string()), true);
    assert!(r.is_empty());
    assert_eq!(v.nav.current, "/d");
    let r = apply_item_viewer_action(
        &mut w,
        &mut v,
        ItemViewerAction::Context(ItemViewerContextAction::Restore(vec!["/d/a".to_string()])),
        true,
    );
    assert!(matches!(r.as_slice(), [ShellRequest::Context(ItemViewerContextAction::Restore(_))]));
}

#[test]
fn a_new_view_takes_the_saved_column_order() {
    let mut orders = eden_explorer::config::ColumnOrders::default();
    orders.set_order(false, true, vec![C::Deleted, C::Type]);
    let v = ViewState::new("/r".to_string(), &orders, false, true, ListingOrder::Linux);
    assert_eq!(v.columns, vec![C::Deleted, C::Type]);
    assert_eq!(v.nav.current, "/r");
    assert!(v.files.is_empty() && v.selection.selected.is_empty() && v.history.entries.is_empty());
    let drives = ViewState::new("/".to_string(), &orders, true, false, ListingOrder::Windows);
    assert_eq!(drives.columns, vec![C::Type, C::Size, C::Usage]);
}

#[test]
fn back_then_forward_returns_to_the_same_history() {
    let mut v = view_at("/d");
    v.navigate(NavRequest::GoTo("/d/c".to_string()));
    v.navigate(NavRequest::GoTo("/d/c/e".to_string()));
    v.navigate(NavRequest::Back);
    let (cur, back, fwd) = (v.nav.current.clone(), v.nav.back.clone(), v.nav.forward.clone());
    assert_eq!(cur, "/d/c");
    assert_eq!(back, vec!["/d".to_string()]);
    assert_eq!(fwd, vec!["/d/c/e".to_string()]);
    assert_eq!(v.navigate(NavRequest::Back), NavOutcome::WentBack);
    assert_eq!(v.navigate(NavRequest::Forward), NavOutcome::WentForward);
    assert_eq!((v.nav.current.clone(), v.nav.back.clone(), v.nav.forward.clone()), (cur, back, fwd));
    assert_eq!(v.navigate(NavRequest::Up), NavOutcome::WentUp);
    assert_eq!(v.nav.current, "/d");
    assert!(v.nav.forward.is_empty());
    assert_eq!(v.nav.back, vec!["/d".to_string(), "/d/c".to_string()]);
}

#[test]
fn tab_bar_moves_update_the_tab_and_mark_the_tab_list() {
    let mut w = workspace();
    let mut v = view_at("/d");
    assert_eq!(
        navigate_focused(&mut w, &mut v, NavRequest::GoTo("/d/c".to_string())),
        NavOutcome::WentTo
    );
    assert_eq!(w.tabs[0].path, "/d/c");
    assert!(w.tab_infos_dirty);
    w.tab_infos_dirty = false;
    assert_eq!(navigate_focused(&mut w, &mut v, NavRequest::Back), NavOutcome::WentBack);
    assert_eq!(w.tabs[0].path, "/d");
    assert!(w.tab_infos_dirty);
    w.tab_infos_dirty = false;
    assert_eq!(navigate_focused(&mut w, &mut v, NavRequest::Back), NavOutcome::Stayed);
    assert_eq!(w.tabs[0].path, "/d");
    assert!(w.tab_infos_dirty);
}

#[test]
fn loading_a_view_empties_it_and_marks_the_rows() {
    let mut v = view_at("/d");
    v.selection.select("/d/a".to_string(), Some(1));
    let mut r = SizeRequests::new();
    r.schedule("/d/c".to_string());
    let load = v.begin_load(&mut r, ListingSource::Folder, true);
    assert_eq!(load, LoadState { receiving: true, loading: true, sizing: true });
    assert!(v.files.is_empty() && v.rows.is_empty() && v.filter_dirty);
    assert!(v.selection.selected.is_empty());
    assert!(r.pending.is_empty() && r.queue.is_empty());
    assert_eq!(v.nav.current, "/d");
}

#[test]
fn a_column_order_reaches_every_view() {
    let mut settings = ColumnOrders::default();
    let mut views = vec![
        ViewColumns { orders: ColumnOrders::default(), layout_generation: 4 },
        ViewColumns { orders: ColumnOrders::default(), layout_generation: u64::MAX },
    ];
    let order = vec![C::Size, C::Type];
    let drive_before = settings.drive.clone();
    apply_column_order(&mut settings, &mut views, false, false, &order);
    assert_eq!(settings.file, order);
    assert_eq!(settings.drive, drive_before);
    assert_eq!(views[0].orders.file, order);
    assert_eq!(views[1].orders.file, order);
    assert_eq!(views[0].orders.drive, drive_before);
    assert_eq!(views[0].layout_generation, 5);
    assert_eq!(views[1].layout_generation, 0);
    apply_column_order(&mut settings, &mut views, false, true, &vec![C::Type]);
    assert_eq!(views[1].orders.recycle, vec![C::Type]);
    assert_eq!(views[1].orders.file, order);
}

#[test]
fn a_duplicated_tab_keeps_the_navigation_history() {
    let mut v = view_at("/d");
    v.navigate(NavRequest::GoTo("/d/c".to_string()));
    v.navigate(NavRequest::GoTo("/d/c/e".to_string()));
    v.navigate(NavRequest::Back);
    v.selection.select("/d/c/e".to_string(), Some(0));
    let copy = v.duplicate_for_new_tab(&ColumnOrders::default(), false, false);
    assert_eq!(copy.nav.current, "/d/c");
    assert_eq!(copy.nav.back, vec!["/d".to_string()]);
    assert_eq!(copy.nav.forward, vec!["/d/c/e".to_string()]);
    assert!(copy.selection.selected.is_empty());
    assert_eq!(copy.history.lookup("/d"), None);
    assert_eq!(copy.columns, ColumnOrders::default().file);
}
