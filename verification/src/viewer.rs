//! The state of the focused item viewer and what each of its actions does:
//! moving between folders, the selection, the column layout, and the
//! requests handed to the shell and the caller.
use vstd::prelude::*;

use crate::actions::{
    action_allowed, blocked_in_recycle_bin, range_focus, range_select_focus,
    ItemViewerAction, ItemViewerContextAction,
};
use crate::config::{ColumnOrders, ItemViewerHeaderColumn};
use crate::filename::RenameState;
use crate::navigation::{
    recorded_child, went_back, went_forward, with_recorded, History, Navigation,
};
use crate::selection::{
    position_in_view, row_of, rows_valid, select_position, view_is_filtered, with_path,
    with_paths, Selection,
};
use crate::sorting::{sort_files, FileItem, ListingOrder, SortColumn};
use crate::listing::{
    is_sorting_of, load_started, reset_view, ListingSource, LoadState, SizeRequests,
};
use crate::workspace::{
    favorite_label, focused_view, label_for, parent_of, path_parent, same_path,
    sort_after_click, with_focused_path, with_focused_sort, without_path, Workspace,
};

verus! {

/// A request to fit column widths to their contents.
#[derive(Clone, Copy, Debug, PartialEq, Eq, Structural)]
pub enum FitRequest {
    Column(ItemViewerHeaderColumn),
    All,
}

/// The focused view: where it is, what it lists and shows, what is selected,
/// the folders it came from, and its column layout.
#[derive(Debug)]
pub struct ViewState {
    pub nav: Navigation,
    pub files: Vec<FileItem>,
    /// The listing positions shown, in order (the filtered rows).
    pub rows: Vec<usize>,
    pub filter_active: bool,
    pub filter_query: String,
    /// The shown rows must be computed again.
    pub filter_dirty: bool,
    pub selection: Selection,
    pub history: History,
    /// The entry to select after coming back to a folder.
    pub navigation_selection: Option<String>,
    /// The columns shown after the name column, in order.
    pub columns: Vec<ItemViewerHeaderColumn>,
    pub fit_request: Option<FitRequest>,
    pub layout_generation: u64,
    pub listing_order: ListingOrder,
}

/// The position of the first `c` in the column order, or -1.
pub open spec fn column_index(order: Seq<ItemViewerHeaderColumn>, c: ItemViewerHeaderColumn) -> int
    decreases order.len(),
{
    if order.len() == 0 {
        -1
    } else if order[0] == c {
        0
    } else {
        let k = column_index(order.drop_first(), c);
        if k < 0 {
            -1
        } else {
            k + 1
        }
    }
}

proof fn lemma_column_index(order: Seq<ItemViewerHeaderColumn>, c: ItemViewerHeaderColumn, i: int)
    requires
        0 <= i <= order.len(),
        forall|m: int| 0 <= m < i ==> order[m] != c,
        i < order.len() ==> order[i] == c,
    ensures
        column_index(order, c) == (if i < order.len() {
            i
        } else {
            -1
        }),
        -1 <= column_index(order, c) < order.len(),
    decreases order.len(),
{
    if order.len() > 0 && i > 0 {
        let rest = order.drop_first();
        assert forall|m: int| 0 <= m < i - 1 implies rest[m] != c by {
            assert(rest[m] == order[m + 1]);
        }
        if i - 1 < rest.len() {
            assert(rest[i - 1] == order[i]);
        }
        lemma_column_index(rest, c, i - 1);
    }
}

/// Finds the first position of a column (`column_index`).
fn find_column(order: &Vec<ItemViewerHeaderColumn>, c: ItemViewerHeaderColumn) -> (r: Option<usize>)
    ensures
        match r {
            Some(i) => column_index(order@, c) == i && i < order@.len(),
            None => column_index(order@, c) == -1,
        },
{
    let mut i: usize = 0;
    while i < order.len()
        invariant
            i <= order@.len(),
            forall|m: int| 0 <= m < i ==> order@[m] != c,
        decreases order@.len() - i,
    {
        if order[i] == c {
            proof {
                lemma_column_index(order@, c, i as int);
            }
            return Some(i);
        }
        i = i + 1;
    }
    proof {
        lemma_column_index(order@, c, i as int);
    }
    None
}

/// The column order after showing or hiding a column: a shown column is
/// taken out, a hidden one is added at the end.
pub open spec fn toggled_column(order: Seq<ItemViewerHeaderColumn>, c: ItemViewerHeaderColumn) -> Seq<
    ItemViewerHeaderColumn,
> {
    if column_index(order, c) >= 0 {
        order.remove(column_index(order, c))
    } else {
        order.push(c)
    }
}

/// The column order after moving a column `delta` places (left when
/// negative): it swaps with the column there; nothing moves when the column
/// is not shown or would leave the order.
pub open spec fn moved_column(
    order: Seq<ItemViewerHeaderColumn>,
    c: ItemViewerHeaderColumn,
    delta: int,
) -> Option<Seq<ItemViewerHeaderColumn>> {
    let i = column_index(order, c);
    let j = i + delta;
    if i >= 0 && 0 <= j < order.len() && j != i {
        Some(order.update(i, order[j]).update(j, order[i]))
    } else {
        None
    }
}

/// The column order after moving a column to the start or the end; nothing
/// moves when it is not shown or already there.
pub open spec fn column_to_edge(
    order: Seq<ItemViewerHeaderColumn>,
    c: ItemViewerHeaderColumn,
    to_start: bool,
) -> Option<Seq<ItemViewerHeaderColumn>> {
    let i = column_index(order, c);
    if i < 0 {
        None
    } else if to_start {
        if i == 0 {
            None
        } else {
            Some(seq![c] + order.remove(i))
        }
    } else if i == order.len() - 1 {
        None
    } else {
        Some(order.remove(i).push(c))
    }
}

fn toggle_column(order: &mut Vec<ItemViewerHeaderColumn>, c: ItemViewerHeaderColumn)
    ensures
        final(order)@ == toggled_column(old(order)@, c),
{
    match find_column(order, c) {
        Some(i) => {
            order.remove(i);
        },
        None => {
            order.push(c);
        },
    }
}

fn move_column(order: &mut Vec<ItemViewerHeaderColumn>, c: ItemViewerHeaderColumn, right: bool) -> (moved: bool)
    ensures
        ({
            let m = moved_column(old(order)@, c, if right { 1 } else { -1 });
            &&& moved == m is Some
            &&& m matches Some(n) ==> final(order)@ == n
            &&& m is None ==> final(order)@ == old(order)@
        }),
{
    match find_column(order, c) {
        Some(i) => {
            if right {
                if i < order.len() - 1 {
                    let a = order[i];
                    let b = order[i + 1];
                    order.set(i, b);
                    order.set(i + 1, a);
                    return true;
                }
            } else if i > 0 {
                let a = order[i];
                let b = order[i - 1];
                order.set(i, b);
                order.set(i - 1, a);
                return true;
            }
            false
        },
        None => false,
    }
}

fn move_column_to_edge(order: &mut Vec<ItemViewerHeaderColumn>, c: ItemViewerHeaderColumn, to_start: bool) -> (moved: bool)
    ensures
        ({
            let m = column_to_edge(old(order)@, c, to_start);
            &&& moved == m is Some
            &&& m matches Some(n) ==> final(order)@ == n
            &&& m is None ==> final(order)@ == old(order)@
        }),
{
    match find_column(order, c) {
        Some(i) => {
            if to_start {
                if i == 0 {
                    return false;
                }
                order.remove(i);
                order.insert(0, c);
                assert(order@ =~= seq![c] + old(order)@.remove(i as int));
                true
            } else {
                if i == order.len() - 1 {
                    return false;
                }
                order.remove(i);
                order.push(c);
                true
            }
        },
        None => false,
    }
}

/// What the caller or the shell has to carry out after an action.
#[derive(Debug)]
pub enum ShellRequest {
    /// Load the focused view again.
    Reload,
    /// Load the active tab's second view.
    LoadSplitView,
    /// Forget the files on the clipboard.
    ClearClipboardFiles,
    /// Create a new folder in the current folder.
    CreateFolder,
    /// Create a new file in the current folder.
    CreateFile,
    /// Open a terminal in this folder.
    OpenTerminal(String),
    /// Open these entries with their default applications.
    OpenWithDefault(Vec<String>),
    /// Carry out a context-menu action.
    Context(ItemViewerContextAction),
    /// Open the rename editor.
    StartRename(RenameState),
    /// Store this sort order as the one new tabs start with, and save the
    /// settings.
    SaveSort(SortColumn, bool),
    /// Store this column order for the listing shown, in the settings and in
    /// every view.
    StoreColumnOrder(Vec<ItemViewerHeaderColumn>),
    /// Store the column widths of the listing shown.
    StoreColumnSizes,
    /// Ask whether to copy or move the dropped entries into this folder.
    CopyOrMoveDropped(Vec<String>, String),
    /// Move these entries into this folder.
    MoveItems(Vec<String>, String),
}

/// The paths of the rows shown, in order.
pub open spec fn row_paths(files: Seq<FileItem>, rows: Seq<usize>) -> Seq<String> {
    rows.map_values(|i: usize| files[i as int].path)
}

/// The paths of the rows shown, in order: what "select all" selects.
pub fn paths_of_rows(files: &Vec<FileItem>, rows: &Vec<usize>) -> (r: Vec<String>)
    requires
        rows_valid(files@, rows@),
    ensures
        r@ == row_paths(files@, rows@),
{
    let mut r: Vec<String> = Vec::new();
    let mut i: usize = 0;
    while i < rows.len()
        invariant
            rows_valid(files@, rows@),
            i <= rows@.len(),
            r@ == row_paths(files@, rows@.take(i as int)),
        decreases rows@.len() - i,
    {
        let k = rows[i];
        let p = files[k].path.clone();
        r.push(p);
        assert(r@ =~= row_paths(files@, rows@.take(i + 1)));
        i = i + 1;
    }
    assert(rows@.take(rows@.len() as int) =~= rows@);
    r
}

/// The focus after a range selection of `paths` (see `range_focus`): the end
/// of the range farthest from the anchor, by where the ends are shown.
pub open spec fn range_select_target(v: ViewState, paths: Seq<String>) -> Option<usize> {
    if paths.len() == 0 {
        None
    } else {
        let filtered = (v.filter_active && v.filter_query@.len() > 0) || v.rows@.len()
            != v.files@.len();
        range_focus(
            v.selection.anchor,
            paths.len(),
            crate::selection::view_spot(v.files@, v.rows@, filtered, paths[0]@),
            crate::selection::view_spot(v.files@, v.rows@, filtered, paths.last()@),
        )
    }
}

/// Every field of the workspace but its tabs and their changed flag is as
/// it was.
pub open spec fn same_but_tabs(a: Workspace, b: Workspace) -> bool {
    &&& a.active_tab == b.active_tab
    &&& a.next_tab_id == b.next_tab_id
    &&& a.focused_split == b.focused_split
    &&& a.pending_tab_scroll_id == b.pending_tab_scroll_id
    &&& a.pinned_tabs@ == b.pinned_tabs@
    &&& a.favorites@ == b.favorites@
    &&& a.item_clicked == b.item_clicked
}

/// Carries out an action of the focused item viewer. In the recycle bin the
/// actions that would create, open, edit, copy, paste, tag, rename or move
/// entries are ignored. Otherwise the action changes the workspace and the
/// view as each clause says, and the returned requests are what is left for
/// the caller and the shell to do, in order.
#[verifier::rlimit(50)]
pub fn apply_item_viewer_action(
    ws: &mut Workspace,
    view: &mut ViewState,
    action: ItemViewerAction,
    in_recycle_bin: bool,
) -> (r: Vec<ShellRequest>)
    requires
        old(ws).wf(),
        old(ws).next_tab_id < u64::MAX,
        rows_valid(old(view).files@, old(view).rows@),
    ensures
        final(ws).wf(),
        in_recycle_bin && blocked_in_recycle_bin(action) ==> r@.len() == 0 && *final(ws)
            == *old(ws) && *final(view) == *old(view),
        !(in_recycle_bin && blocked_in_recycle_bin(action)) ==> ({
            let w = *old(ws);
            let v = *old(view);
            let a = w.active_tab as int;
            let t = w.tabs@[a];
            let fv = focused_view(t, w.focused_split);
            match action {
                ItemViewerAction::Sort(c) => {
                    let o = sort_after_click(fv.1, fv.2, c);
                    &&& final(ws).tabs@ == w.tabs@.update(
                        a,
                        with_focused_sort(t, w.focused_split, o.0, o.1),
                    )
                    &&& same_but_tabs(*final(ws), w)
                    &&& final(ws).tab_infos_dirty == w.tab_infos_dirty
                    &&& *final(view) == ViewState { files: final(view).files, ..v }
                    &&& is_sorting_of(final(view).files@, v.files@, o.0, o.1, v.listing_order)
                    &&& r@ == seq![ShellRequest::SaveSort(o.0, o.1)]
                },
                ItemViewerAction::ToggleColumnVisibility(c) => {
                    &&& *final(ws) == w
                    &&& final(view).columns@ == toggled_column(v.columns@, c)
                    &&& *final(view) == ViewState {
                        columns: final(view).columns,
                        layout_generation: v.layout_generation.wrapping_add(1),
                        ..v
                    }
                    &&& r@.len() == 1
                    &&& r@[0] matches ShellRequest::StoreColumnOrder(o) && o@ == final(view).columns@
                },
                ItemViewerAction::FitColumn(c) => {
                    &&& *final(ws) == w
                    &&& *final(view) == ViewState {
                        fit_request: Some(FitRequest::Column(c)),
                        layout_generation: v.layout_generation.wrapping_add(1),
                        ..v
                    }
                    &&& r@.len() == 0
                },
                ItemViewerAction::FitAllColumns => {
                    &&& *final(ws) == w
                    &&& *final(view) == ViewState {
                        fit_request: Some(FitRequest::All),
                        layout_generation: v.layout_generation.wrapping_add(1),
                        ..v
                    }
                    &&& r@.len() == 0
                },
                ItemViewerAction::MoveColumnLeft(c) => columns_moved(
                    *final(ws),
                    w,
                    *final(view),
                    v,
                    r@,
                    moved_column(v.columns@, c, -1),
                ),
                ItemViewerAction::MoveColumnRight(c) => columns_moved(
                    *final(ws),
                    w,
                    *final(view),
                    v,
                    r@,
                    moved_column(v.columns@, c, 1),
                ),
                ItemViewerAction::MoveColumnToStart(c) => columns_moved(
                    *final(ws),
                    w,
                    *final(view),
                    v,
                    r@,
                    column_to_edge(v.columns@, c, true),
                ),
                ItemViewerAction::MoveColumnToEnd(c) => columns_moved(
                    *final(ws),
                    w,
                    *final(view),
                    v,
                    r@,
                    column_to_edge(v.columns@, c, false),
                ),
                ItemViewerAction::CreateFolder => {
                    &&& *final(ws) == w
                    &&& *final(view) == v
                    &&& r@ == seq![ShellRequest::CreateFolder]
                },
                ItemViewerAction::CreateFile => {
                    &&& *final(ws) == w
                    &&& *final(view) == v
                    &&& r@ == seq![ShellRequest::CreateFile]
                },
                ItemViewerAction::RefreshCurrentDirectory => {
                    &&& *final(ws) == w
                    &&& *final(view) == v
                    &&& r@ == seq![ShellRequest::ClearClipboardFiles, ShellRequest::Reload]
                },
                ItemViewerAction::OpenTerminal => {
                    &&& *final(ws) == w
                    &&& *final(view) == v
                    &&& r@ == seq![ShellRequest::OpenTerminal(v.nav.current)]
                },
                ItemViewerAction::Select(p) => {
                    let k = crate::selection::select_spot(v.files@, v.rows@, p@);
                    &&& *final(ws) == w
                    &&& *final(view) == ViewState { selection: final(view).selection, ..v }
                    &&& final(view).selection.selected@ == with_path(v.selection.selected@, p)
                    &&& (k is Some ==> final(view).selection.anchor == k
                        && final(view).selection.focus == k)
                    &&& (k is None ==> final(view).selection.anchor == v.selection.anchor
                        && final(view).selection.focus == v.selection.focus)
                    &&& r@.len() == 0
                },
                ItemViewerAction::Deselect(p) => {
                    &&& *final(ws) == w
                    &&& *final(view) == ViewState { selection: final(view).selection, ..v }
                    &&& final(view).selection.selected@ == without_path(v.selection.selected@, p@)
                    &&& final(view).selection.anchor == v.selection.anchor
                    &&& final(view).selection.focus == v.selection.focus
                    &&& r@.len() == 0
                },
                ItemViewerAction::SelectAll => {
                    &&& *final(ws) == w
                    &&& *final(view) == ViewState { selection: final(view).selection, ..v }
                    &&& final(view).selection.selected@ == with_paths(
                        Seq::empty(),
                        row_paths(v.files@, v.rows@),
                    )
                    &&& final(view).selection.anchor == v.selection.anchor
                    &&& final(view).selection.focus == v.selection.focus
                    &&& r@.len() == 0
                },
                ItemViewerAction::DeselectAll => {
                    &&& *final(ws) == w
                    &&& *final(view) == ViewState { selection: final(view).selection, ..v }
                    &&& final(view).selection.selected@.len() == 0
                    &&& final(view).selection.anchor == v.selection.anchor
                    &&& final(view).selection.focus == v.selection.focus
                    &&& r@.len() == 0
                },
                ItemViewerAction::RangeSelect(ps) => {
                    let f = range_select_target(v, ps@);
                    &&& *final(ws) == w
                    &&& *final(view) == ViewState { selection: final(view).selection, ..v }
                    &&& final(view).selection.selected@ == with_paths(Seq::empty(), ps@)
                    &&& final(view).selection.anchor == v.selection.anchor
                    &&& (f is Some ==> final(view).selection.focus == f)
                    &&& (f is None ==> final(view).selection.focus == v.selection.focus)
                    &&& r@.len() == 0
                },
                ItemViewerAction::Open(p) => {
                    &&& final(ws).tabs@ == w.tabs@.update(a, with_focused_path(t, w.focused_split, p))
                    &&& same_but_tabs(*final(ws), w)
                    &&& final(ws).tab_infos_dirty
                    &&& final(view).selection.selected@ == with_path(Seq::empty(), p)
                    &&& final(view).selection.anchor == v.selection.anchor
                    &&& final(view).selection.focus == v.selection.focus
                    &&& final(view).filter_dirty
                    &&& final(view).rows@.len() == 0
                    &&& final(view).history.view_entries() == history_after_leaving(
                        v.history.view_entries(),
                        v.nav.current@,
                    )
                    &&& final(view).nav.current == p
                    &&& final(view).nav.back@ == v.nav.back@.push(v.nav.current)
                    &&& final(view).nav.forward@.len() == 0
                    &&& final(view).files == v.files
                    &&& final(view).filter_active == v.filter_active
                    &&& final(view).filter_query == v.filter_query
                    &&& final(view).navigation_selection == v.navigation_selection
                    &&& final(view).columns == v.columns
                    &&& final(view).fit_request == v.fit_request
                    &&& final(view).layout_generation == v.layout_generation
                    &&& final(view).listing_order == v.listing_order
                    &&& r@ == seq![ShellRequest::Reload]
                },
                ItemViewerAction::OpenWithDefault(ps) => {
                    &&& *final(ws) == w
                    &&& *final(view) == v
                    &&& r@ == seq![ShellRequest::OpenWithDefault(ps)]
                },
                ItemViewerAction::OpenInNewTab(p) => {
                    &&& final(ws).tabs@ == w.tabs@.push(
                        crate::workspace::TabEntry {
                            id: w.next_tab_id,
                            path: p,
                            sort_column: fv.1,
                            sort_ascending: fv.2,
                            split: None,
                        },
                    )
                    &&& final(ws).next_tab_id == w.next_tab_id + 1
                    &&& final(ws).active_tab == w.tabs@.len()
                    &&& final(ws).tab_infos_dirty
                    &&& final(ws).focused_split == w.focused_split
                    &&& final(ws).pending_tab_scroll_id == w.pending_tab_scroll_id
                    &&& final(ws).pinned_tabs@ == w.pinned_tabs@
                    &&& final(ws).favorites@ == w.favorites@
                    &&& final(ws).item_clicked == w.item_clicked
                    &&& *final(view) == v
                    &&& r@ == seq![ShellRequest::Reload]
                },
                ItemViewerAction::OpenInSplitView(p) => {
                    &&& final(ws).tabs@ == w.tabs@.update(
                        a,
                        crate::workspace::TabEntry {
                            split: Some(
                                crate::workspace::ViewEntry {
                                    path: p,
                                    sort_column: t.sort_column,
                                    sort_ascending: t.sort_ascending,
                                },
                            ),
                            ..t
                        },
                    )
                    &&& final(ws).focused_split is Secondary
                    &&& final(ws).active_tab == w.active_tab
                    &&& final(ws).pending_tab_scroll_id == w.pending_tab_scroll_id
                    &&& final(ws).tab_infos_dirty == w.tab_infos_dirty
                    &&& final(ws).item_clicked == w.item_clicked
                    &&& final(ws).next_tab_id == w.next_tab_id
                    &&& final(ws).pinned_tabs@ == w.pinned_tabs@
                    &&& final(ws).favorites@ == w.favorites@
                    &&& *final(view) == v
                    &&& r@ == seq![ShellRequest::LoadSplitView]
                },
                ItemViewerAction::Context(c) => {
                    &&& *final(ws) == w
                    &&& *final(view) == v
                    &&& r@ == seq![ShellRequest::Context(c)]
                },
                ItemViewerAction::StartEdit(p) => {
                    &&& *final(ws) == w
                    &&& *final(view) == v
                    &&& r@.len() == 1
                    &&& r@[0] matches ShellRequest::StartRename(s) && s.path == p && s.new_name@
                        == label_for(p@) && s.should_focus && !s.validation_error_show
                },
                ItemViewerAction::ReplaceSelection(p) => {
                    let k = crate::selection::view_spot(
                        v.files@,
                        v.rows@,
                        v.filter_active && v.filter_query@.len() > 0,
                        p@,
                    );
                    &&& *final(ws) == w
                    &&& *final(view) == ViewState { selection: final(view).selection, ..v }
                    &&& final(view).selection.selected@ == with_path(Seq::empty(), p)
                    &&& (k is Some ==> final(view).selection.anchor == k
                        && final(view).selection.focus == k)
                    &&& (k is None ==> final(view).selection.anchor == v.selection.anchor
                        && final(view).selection.focus == v.selection.focus)
                    &&& r@.len() == 0
                },
                ItemViewerAction::FilesDropped(ps) => {
                    &&& *final(ws) == w
                    &&& *final(view) == v
                    &&& r@ == seq![ShellRequest::CopyOrMoveDropped(ps, v.nav.current)]
                },
                ItemViewerAction::MoveItems { sources, target_dir } => {
                    &&& *final(ws) == w
                    &&& *final(view) == ViewState { selection: final(view).selection, ..v }
                    &&& final(view).selection.selected@.len() == 0
                    &&& final(view).selection.anchor is None
                    &&& final(view).selection.focus is None
                    &&& r@ == seq![ShellRequest::MoveItems(sources, target_dir), ShellRequest::Reload]
                },
                ItemViewerAction::ColumnSizesChanged => {
                    &&& *final(ws) == w
                    &&& *final(view) == v
                    &&& r@ == seq![ShellRequest::StoreColumnSizes]
                },
            }
        }),
{
    let mut r: Vec<ShellRequest> = Vec::new();
    if !action_allowed(&action, in_recycle_bin) {
        return r;
    }
    match action {
        ItemViewerAction::Sort(c) => {
            let o = ws.toggle_sort(c);
            sort_files(&mut view.files, o.0, o.1, view.listing_order);
            r.push(ShellRequest::SaveSort(o.0, o.1));
        },
        ItemViewerAction::ToggleColumnVisibility(c) => {
            toggle_column(&mut view.columns, c);
            view.layout_generation = view.layout_generation.wrapping_add(1);
            r.push(ShellRequest::StoreColumnOrder(view.columns.clone()));
        },
        ItemViewerAction::FitColumn(c) => {
            view.fit_request = Some(FitRequest::Column(c));
            view.layout_generation = view.layout_generation.wrapping_add(1);
        },
        ItemViewerAction::FitAllColumns => {
            view.fit_request = Some(FitRequest::All);
            view.layout_generation = view.layout_generation.wrapping_add(1);
        },
        ItemViewerAction::MoveColumnLeft(c) => {
            if move_column(&mut view.columns, c, false) {
                view.layout_generation = view.layout_generation.wrapping_add(1);
                r.push(ShellRequest::StoreColumnOrder(view.columns.clone()));
            }
        },
        ItemViewerAction::MoveColumnRight(c) => {
            if move_column(&mut view.columns, c, true) {
                view.layout_generation = view.layout_generation.wrapping_add(1);
                r.push(ShellRequest::StoreColumnOrder(view.columns.clone()));
            }
        },
        ItemViewerAction::MoveColumnToStart(c) => {
            if move_column_to_edge(&mut view.columns, c, true) {
                view.layout_generation = view.layout_generation.wrapping_add(1);
                r.push(ShellRequest::StoreColumnOrder(view.columns.clone()));
            }
        },
        ItemViewerAction::MoveColumnToEnd(c) => {
            if move_column_to_edge(&mut view.columns, c, false) {
                view.layout_generation = view.layout_generation.wrapping_add(1);
                r.push(ShellRequest::StoreColumnOrder(view.columns.clone()));
            }
        },
        ItemViewerAction::CreateFolder => {
            r.push(ShellRequest::CreateFolder);
        },
        ItemViewerAction::CreateFile => {
            r.push(ShellRequest::CreateFile);
        },
        ItemViewerAction::RefreshCurrentDirectory => {
            r.push(ShellRequest::ClearClipboardFiles);
            r.push(ShellRequest::Reload);
        },
        ItemViewerAction::OpenTerminal => {
            r.push(ShellRequest::OpenTerminal(view.nav.current.clone()));
        },
        ItemViewerAction::Select(p) => {
            let k = select_position(&view.files, &view.rows, p.as_str());
            view.selection.select(p, k);
        },
        ItemViewerAction::Deselect(p) => {
            view.selection.deselect(p.as_str());
        },
        ItemViewerAction::SelectAll => {
            let paths = paths_of_rows(&view.files, &view.rows);
            view.selection.select_only(paths);
        },
        ItemViewerAction::DeselectAll => {
            view.selection.clear();
        },
        ItemViewerAction::RangeSelect(ps) => {
            let mut focus: Option<usize> = None;
            if ps.len() > 0 {
                let filtered = view_is_filtered(
                    view.filter_active,
                    view.filter_query.as_str(),
                    view.rows.len(),
                    view.files.len(),
                );
                let first = position_in_view(&view.files, &view.rows, filtered, ps[0].as_str());
                let last = position_in_view(
                    &view.files,
                    &view.rows,
                    filtered,
                    ps[ps.len() - 1].as_str(),
                );
                focus = range_select_focus(view.selection.anchor, ps.len(), first, last);
            }
            view.selection.range_select(ps, focus);
        },
        ItemViewerAction::Open(p) => {
            view.selection.clear();
            let q = p.clone();
            view.selection.select(q, None);
            view.filter_dirty = true;
            view.rows = Vec::new();
            view.record_leaving();
            let target = p.clone();
            view.nav.go_to(target);
            ws.set_focused_path(p);
            ws.tab_infos_dirty = true;
            r.push(ShellRequest::Reload);
        },
        ItemViewerAction::OpenWithDefault(ps) => {
            r.push(ShellRequest::OpenWithDefault(ps));
        },
        ItemViewerAction::OpenInNewTab(p) => {
            ws.open_new_tab(p);
            r.push(ShellRequest::Reload);
        },
        ItemViewerAction::OpenInSplitView(p) => {
            ws.open_in_split(p);
            r.push(ShellRequest::LoadSplitView);
        },
        ItemViewerAction::Context(c) => {
            r.push(ShellRequest::Context(c));
        },
        ItemViewerAction::StartEdit(p) => {
            let name = favorite_label(p.as_str());
            r.push(
                ShellRequest::StartRename(
                    RenameState {
                        path: p,
                        new_name: name,
                        should_focus: true,
                        validation_error_show: false,
                    },
                ),
            );
        },
        ItemViewerAction::ReplaceSelection(p) => {
            let filtered = view.filter_active && !view.filter_query.as_str().is_empty();
            let k = position_in_view(&view.files, &view.rows, filtered, p.as_str());
            view.selection.clear();
            view.selection.select(p, k);
        },
        ItemViewerAction::FilesDropped(ps) => {
            r.push(ShellRequest::CopyOrMoveDropped(ps, view.nav.current.clone()));
        },
        ItemViewerAction::MoveItems { sources, target_dir } => {
            view.selection = Selection::new();
            r.push(ShellRequest::MoveItems(sources, target_dir));
            r.push(ShellRequest::Reload);
        },
        ItemViewerAction::ColumnSizesChanged => {
            r.push(ShellRequest::StoreColumnSizes);
        },
    }
    r
}

/// After a column move: when it moved, the new order, a new layout and a
/// request to store the order; otherwise the same columns and nothing else
/// changed.
pub open spec fn columns_moved(
    ws2: Workspace,
    ws1: Workspace,
    v2: ViewState,
    v1: ViewState,
    r: Seq<ShellRequest>,
    m: Option<Seq<ItemViewerHeaderColumn>>,
) -> bool {
    &&& ws2 == ws1
    &&& match m {
        Some(n) => {
            &&& v2.columns@ == n
            &&& v2 == ViewState {
                columns: v2.columns,
                layout_generation: v1.layout_generation.wrapping_add(1),
                ..v1
            }
            &&& r.len() == 1
            &&& r[0] matches ShellRequest::StoreColumnOrder(o) && o@ == n
        },
        None => {
            &&& v2.columns@ == v1.columns@
            &&& v2 == ViewState { columns: v2.columns, ..v1 }
            &&& r.len() == 0
        },
    }
}

/// A move between folders asked for from the address bar.
#[derive(Debug)]
pub enum NavRequest {
    Back,
    Forward,
    Up,
    GoTo(String),
}

/// Which move between folders took place.
#[derive(Clone, Copy, Debug, PartialEq, Eq, Structural)]
pub enum NavOutcome {
    WentBack,
    WentForward,
    WentUp,
    WentTo,
    /// There was nowhere to go; the folder is unchanged.
    Stayed,
}

/// The history map after leaving the folder `cur`: when it has a parent
/// folder, `cur` is recorded as the subfolder last left for that parent.
pub open spec fn history_after_leaving(
    h: Seq<(Seq<char>, Seq<char>)>,
    cur: Seq<char>,
) -> Seq<(Seq<char>, Seq<char>)> {
    match parent_of(cur) {
        Some(p) => with_recorded(h, p, cur),
        None => h,
    }
}

/// The column layout of one view: an order for each kind of listing, and a
/// generation that changes whenever the layout must be drawn again.
#[derive(Debug)]
pub struct ViewColumns {
    pub orders: ColumnOrders,
    pub layout_generation: u64,
}

/// `b` is `a` with the order of the listing kind (`is_drive_view`,
/// `is_recycle_bin_view`) replaced by `order`; the other two orders are kept.
pub open spec fn order_applied(
    a: ColumnOrders,
    b: ColumnOrders,
    is_drive_view: bool,
    is_recycle_bin_view: bool,
    order: Seq<ItemViewerHeaderColumn>,
) -> bool {
    &&& b.order_shown(is_drive_view, is_recycle_bin_view) == order
    &&& (is_drive_view ==> b.file@ == a.file@ && b.recycle@ == a.recycle@)
    &&& (!is_drive_view && is_recycle_bin_view ==> b.file@ == a.file@ && b.drive@ == a.drive@)
    &&& (!is_drive_view && !is_recycle_bin_view ==> b.drive@ == a.drive@ && b.recycle@
        == a.recycle@)
}

/// Applies a new column order of one listing kind: it is stored in the
/// settings and given to every view of every tab, each of which is laid out
/// again. The caller saves the settings.
pub fn apply_column_order(
    settings: &mut ColumnOrders,
    views: &mut Vec<ViewColumns>,
    is_drive_view: bool,
    is_recycle_bin_view: bool,
    order: &Vec<ItemViewerHeaderColumn>,
)
    ensures
        order_applied(*old(settings), *final(settings), is_drive_view, is_recycle_bin_view, order@),
        final(views)@.len() == old(views)@.len(),
        forall|i: int|
            0 <= i < old(views)@.len() ==> order_applied(
                old(views)@[i].orders,
                #[trigger] final(views)@[i].orders,
                is_drive_view,
                is_recycle_bin_view,
                order@,
            ),
        forall|i: int|
            0 <= i < old(views)@.len() ==> #[trigger] final(views)@[i].layout_generation
                == old(views)@[i].layout_generation.wrapping_add(1),
{
    settings.set_order(is_drive_view, is_recycle_bin_view, copy_columns(order));
    let mut out: Vec<ViewColumns> = Vec::new();
    let mut i: usize = 0;
    while i < views.len()
        invariant
            i <= views@.len(),
            views@ == old(views)@,
            out@.len() == i,
            forall|k: int|
                #![trigger out@[k]]
                0 <= k < i ==> {
                    &&& order_applied(
                        views@[k].orders,
                        out@[k].orders,
                        is_drive_view,
                        is_recycle_bin_view,
                        order@,
                    )
                    &&& out@[k].layout_generation == views@[k].layout_generation.wrapping_add(1)
                },
        decreases views@.len() - i,
    {
        let current = &views[i];
        let mut orders = ColumnOrders {
            file: copy_columns(&current.orders.file),
            drive: copy_columns(&current.orders.drive),
            recycle: copy_columns(&current.orders.recycle),
        };
        orders.set_order(is_drive_view, is_recycle_bin_view, copy_columns(order));
        out.push(
            ViewColumns { orders, layout_generation: current.layout_generation.wrapping_add(1) },
        );
        i = i + 1;
    }
    *views = out;
}

fn copy_columns(order: &Vec<ItemViewerHeaderColumn>) -> (r: Vec<ItemViewerHeaderColumn>)
    ensures
        r@ == order@,
{
    let mut r: Vec<ItemViewerHeaderColumn> = Vec::new();
    let mut i: usize = 0;
    while i < order.len()
        invariant
            i <= order@.len(),
            r@ == order@.take(i as int),
        decreases order@.len() - i,
    {
        r.push(order[i]);
        assert(r@ =~= order@.take(i + 1));
        i = i + 1;
    }
    assert(order@.take(order@.len() as int) =~= order@);
    r
}

impl ViewState {
    /// A fresh view on `path`, as a new tab gets it: no history, nothing
    /// listed or selected, and the saved column order of the listing it shows.
    pub fn new(
        path: String,
        orders: &ColumnOrders,
        is_drive_view: bool,
        is_recycle_bin_view: bool,
        listing_order: ListingOrder,
    ) -> (v: ViewState)
        ensures
            v.nav.current == path,
            v.nav.back@.len() == 0,
            v.nav.forward@.len() == 0,
            v.files@.len() == 0,
            v.rows@.len() == 0,
            !v.filter_active,
            v.filter_query@.len() == 0,
            v.filter_dirty,
            v.selection.selected@.len() == 0,
            v.selection.anchor is None,
            v.selection.focus is None,
            v.history.entries@.len() == 0,
            v.navigation_selection is None,
            v.columns@ == orders.order_shown(is_drive_view, is_recycle_bin_view),
            v.fit_request is None,
            v.layout_generation == 0,
            v.listing_order == listing_order,
    {
        let columns = copy_columns(orders.order(is_drive_view, is_recycle_bin_view));
        ViewState {
            nav: Navigation::new(path),
            files: Vec::new(),
            rows: Vec::new(),
            filter_active: false,
            filter_query: String::new(),
            filter_dirty: true,
            selection: Selection::new(),
            history: History::new(),
            navigation_selection: None,
            columns,
            fit_request: None,
            layout_generation: 0,
            listing_order,
        }
    }

    /// The view of a tab opened as a copy of this one: it starts at the same
    /// folder with the same back and forward history, and is otherwise fresh,
    /// as `new` makes it.
    pub fn duplicate_for_new_tab(
        &self,
        orders: &ColumnOrders,
        is_drive_view: bool,
        is_recycle_bin_view: bool,
    ) -> (v: ViewState)
        ensures
            same_navigation(v.nav, self.nav),
            v.files@.len() == 0,
            v.rows@.len() == 0,
            !v.filter_active,
            v.filter_query@.len() == 0,
            v.filter_dirty,
            v.selection.selected@.len() == 0,
            v.selection.anchor is None,
            v.selection.focus is None,
            v.history.entries@.len() == 0,
            v.navigation_selection is None,
            v.columns@ == orders.order_shown(is_drive_view, is_recycle_bin_view),
            v.fit_request is None,
            v.layout_generation == 0,
            v.listing_order == self.listing_order,
    {
        let mut v = ViewState::new(
            self.nav.current.clone(),
            orders,
            is_drive_view,
            is_recycle_bin_view,
            self.listing_order,
        );
        v.nav = self.nav.duplicate();
        v
    }

    /// Records the current folder under its parent, as happens before the
    /// view leaves it.
    fn record_leaving(&mut self)
        ensures
            final(self).history.view_entries() == history_after_leaving(
                old(self).history.view_entries(),
                old(self).nav.current@,
            ),
            final(self).nav == old(self).nav,
            final(self).files == old(self).files,
            final(self).rows == old(self).rows,
            final(self).filter_active == old(self).filter_active,
            final(self).filter_query == old(self).filter_query,
            final(self).filter_dirty == old(self).filter_dirty,
            final(self).selection == old(self).selection,
            final(self).navigation_selection == old(self).navigation_selection,
            final(self).columns == old(self).columns,
            final(self).fit_request == old(self).fit_request,
            final(self).layout_generation == old(self).layout_generation,
            final(self).listing_order == old(self).listing_order,
    {
        match path_parent(self.nav.current.as_str()) {
            Some(parent) => {
                let cur = self.nav.current.clone();
                self.history.record(parent, cur);
            },
            None => {},
        }
    }

    /// After going back or up: nothing is selected, and the entry to select
    /// is the subfolder recorded for the new folder.
    fn restore_selection(&mut self)
        ensures
            final(self).selection.selected@.len() == 0,
            final(self).selection.anchor is None,
            final(self).selection.focus is None,
            match final(self).navigation_selection {
                Some(s) => recorded_child(old(self).history.view_entries(), old(self).nav.current@)
                    == Some(s@),
                None => recorded_child(
                    old(self).history.view_entries(),
                    old(self).nav.current@,
                ) is None,
            },
            final(self).nav == old(self).nav,
            final(self).history == old(self).history,
            final(self).files == old(self).files,
            final(self).rows == old(self).rows,
            final(self).filter_active == old(self).filter_active,
            final(self).filter_query == old(self).filter_query,
            final(self).filter_dirty == old(self).filter_dirty,
            final(self).columns == old(self).columns,
            final(self).fit_request == old(self).fit_request,
            final(self).layout_generation == old(self).layout_generation,
            final(self).listing_order == old(self).listing_order,
    {
        let restored = self.history.lookup(self.nav.current.as_str());
        self.navigation_selection = restored;
        self.selection = Selection::new();
    }

    /// Empties the view before it is loaded again from `source` (see
    /// `reset_view`): its shown rows must be computed again, and nothing else
    /// of it changes. Says what background work it now waits on.
    pub fn begin_load(
        &mut self,
        requests: &mut SizeRequests,
        source: ListingSource,
        scanning: bool,
    ) -> (load: LoadState)
        ensures
            load == load_started(source, scanning),
            final(self).files@.len() == 0,
            final(self).rows@.len() == 0,
            final(self).filter_dirty,
            final(self).selection.selected@.len() == 0,
            final(self).selection.anchor is None,
            final(self).selection.focus is None,
            final(requests).pending@.len() == 0,
            final(requests).queue@.len() == 0,
            final(self).nav == old(self).nav,
            final(self).history == old(self).history,
            final(self).filter_active == old(self).filter_active,
            final(self).filter_query == old(self).filter_query,
            final(self).navigation_selection == old(self).navigation_selection,
            final(self).columns == old(self).columns,
            final(self).fit_request == old(self).fit_request,
            final(self).layout_generation == old(self).layout_generation,
            final(self).listing_order == old(self).listing_order,
    {
        let load = reset_view(&mut self.files, requests, &mut self.selection, source, scanning);
        self.filter_dirty = true;
        self.rows = Vec::new();
        load
    }

    /// Moves between folders. Back and up record the folder left under its
    /// parent, clear the selection, and pick the entry to select from the
    /// history; go-to records the folder left; forward only moves.
    pub fn navigate(&mut self, req: NavRequest) -> (r: NavOutcome)
        ensures
            navigated(*old(self), *final(self), req, r),
    {
        match req {
            NavRequest::Back => {
                self.record_leaving();
                let moved = self.nav.go_back();
                self.restore_selection();
                if moved {
                    NavOutcome::WentBack
                } else {
                    NavOutcome::Stayed
                }
            },
            NavRequest::Up => {
                self.record_leaving();
                let moved = self.nav.go_up();
                self.restore_selection();
                if moved {
                    NavOutcome::WentUp
                } else {
                    NavOutcome::Stayed
                }
            },
            NavRequest::Forward => {
                if self.nav.go_forward() {
                    NavOutcome::WentForward
                } else {
                    NavOutcome::Stayed
                }
            },
            NavRequest::GoTo(p) => {
                self.record_leaving();
                self.nav.go_to(p);
                NavOutcome::WentTo
            },
        }
    }
}

/// Carries out a move of the tab bar (back, forward, up, or to a folder) in
/// the focused view of the active tab: the view moves as `navigate` says, the
/// tab records the folder the view now shows, and the tab list is marked for
/// refresh. The caller then loads the view's folder.
pub fn navigate_focused(ws: &mut Workspace, view: &mut ViewState, req: NavRequest) -> (r:
    NavOutcome)
    requires
        old(ws).wf(),
    ensures
        navigated(*old(view), *final(view), req, r),
        final(ws).wf(),
        final(ws).tabs@ == old(ws).tabs@.update(
            old(ws).active_tab as int,
            with_focused_path(
                old(ws).tabs@[old(ws).active_tab as int],
                old(ws).focused_split,
                final(view).nav.current,
            ),
        ),
        final(ws).tab_infos_dirty,
        same_but_tabs(*final(ws), *old(ws)),
{
    let r = view.navigate(req);
    let cur = view.nav.current.clone();
    ws.set_focused_path(cur);
    ws.tab_infos_dirty = true;
    r
}

/// `w` is the view `v` after the navigation request `req`, which answered
/// `r`. Back and up record the folder left under its parent, clear the
/// selection and pick the entry to select from the history; go-to records the
/// folder left; forward only moves. The listing and the layout are kept.
pub open spec fn navigated(v: ViewState, w: ViewState, req: NavRequest, r: NavOutcome) -> bool {
    &&& (match req {
        NavRequest::Back => {
            &&& w.history.view_entries() == history_after_leaving(
                v.history.view_entries(),
                v.nav.current@,
            )
            &&& (v.nav.back@.len() > 0 ==> r == NavOutcome::WentBack && went_back(v.nav, w.nav))
            &&& (v.nav.back@.len() == 0 ==> r == NavOutcome::Stayed
                && same_navigation(w.nav, v.nav))
            &&& w.selection.selected@.len() == 0
            &&& w.selection.anchor is None
            &&& w.selection.focus is None
            &&& restored_from(w)
        },
        NavRequest::Up => {
            &&& w.history.view_entries() == history_after_leaving(
                v.history.view_entries(),
                v.nav.current@,
            )
            &&& (parent_of(v.nav.current@) is Some ==> r == NavOutcome::WentUp
                && Some(w.nav.current@) == parent_of(v.nav.current@)
                && w.nav.back@ == v.nav.back@.push(v.nav.current)
                && w.nav.forward@.len() == 0)
            &&& (parent_of(v.nav.current@) is None ==> r == NavOutcome::Stayed
                && same_navigation(w.nav, v.nav))
            &&& w.selection.selected@.len() == 0
            &&& w.selection.anchor is None
            &&& w.selection.focus is None
            &&& restored_from(w)
        },
        NavRequest::Forward => {
            &&& w.history == v.history
            &&& (v.nav.forward@.len() > 0 ==> r == NavOutcome::WentForward && went_forward(
                v.nav,
                w.nav,
            ))
            &&& (v.nav.forward@.len() == 0 ==> r == NavOutcome::Stayed
                && same_navigation(w.nav, v.nav))
            &&& w.selection == v.selection
            &&& w.navigation_selection == v.navigation_selection
        },
        NavRequest::GoTo(p) => {
            &&& w.history.view_entries() == history_after_leaving(
                v.history.view_entries(),
                v.nav.current@,
            )
            &&& r == NavOutcome::WentTo
            &&& w.nav.current == p
            &&& w.nav.back@ == v.nav.back@.push(v.nav.current)
            &&& w.nav.forward@.len() == 0
            &&& w.selection == v.selection
            &&& w.navigation_selection == v.navigation_selection
        },
    })
    &&& w.files == v.files
    &&& w.rows == v.rows
    &&& w.columns == v.columns
    &&& w.fit_request == v.fit_request
    &&& w.layout_generation == v.layout_generation
    &&& w.listing_order == v.listing_order
}

/// Two navigation states are at the same folder with the same history behind
/// and ahead.
pub open spec fn same_navigation(a: Navigation, b: Navigation) -> bool {
    &&& a.current == b.current
    &&& a.back@ == b.back@
    &&& a.forward@ == b.forward@
}

/// The entry to select after coming back is the subfolder the view's history
/// records for its current folder.
pub open spec fn restored_from(v: ViewState) -> bool {
    match v.navigation_selection {
        Some(s) => recorded_child(v.history.view_entries(), v.nav.current@) == Some(s@),
        None => recorded_child(v.history.view_entries(), v.nav.current@) is None,
    }
}

} // verus!
