//! The bookkeeping of the main window: open tabs, the active tab, pinned tab
//! paths and sidebar favorites, and the small windows' open flags.
//!
//! Loading listings, persisting settings and drawing stay with the caller,
//! which performs them after the decisions made here.
use vstd::prelude::*;

use crate::sorting::SortColumn;

verus! {

/// Whether `Path`'s `==` (component by component) holds of two path texts.
pub uninterp spec fn path_components_equal(a: Seq<char>, b: Seq<char>) -> bool;

/// Whether two path texts name the same path: equal texts always do, and
/// otherwise `Path`'s `==` decides.
pub open spec fn same_path(a: Seq<char>, b: Seq<char>) -> bool {
    a == b || path_components_equal(a, b)
}

/// The file name of a path (`Path::file_name`), if it has one.
pub uninterp spec fn file_name_of(p: Seq<char>) -> Option<Seq<char>>;

/// Compares two paths with `Path`'s `==`. The result is claimed to be true
/// for equal texts and otherwise the named component-wise equality.
#[verifier::external_body]
pub(crate) fn paths_equal(a: &str, b: &str) -> (r: bool)
    ensures
        r == (a@ == b@ || path_components_equal(a@, b@)),
{
    std::path::Path::new(a) == std::path::Path::new(b)
}

/// Calls `Path::file_name` and converts the name to text (lossily for names
/// that are not valid Unicode). The result is claimed to be the named file
/// name.
#[verifier::external_body]
pub(crate) fn path_file_name(p: &str) -> (r: Option<String>)
    ensures
        r matches Some(n) ==> file_name_of(p@) == Some(n@),
        r is None ==> file_name_of(p@) is None,
{
    std::path::Path::new(p).file_name().map(|n| n.to_string_lossy().to_string())
}

/// The parent of a path (`Path::parent`), if it has one.
pub uninterp spec fn parent_of(p: Seq<char>) -> Option<Seq<char>>;

/// Calls `Path::parent` and converts the parent to text (it is a prefix of the
/// path's text). The result is claimed to be the named parent.
#[verifier::external_body]
pub(crate) fn path_parent(p: &str) -> (r: Option<String>)
    ensures
        r matches Some(q) ==> parent_of(p@) == Some(q@),
        r is None ==> parent_of(p@) is None,
{
    std::path::Path::new(p).parent().map(|q| q.to_string_lossy().into_owned())
}

/// Whether the path has a parent and it is the same path as `parent`.
pub open spec fn lies_in(p: Seq<char>, parent: Seq<char>) -> bool {
    match parent_of(p) {
        Some(q) => same_path(q, parent),
        None => false,
    }
}

/// The file names of the paths that have one, in order.
pub open spec fn file_names(paths: Seq<String>) -> Seq<Seq<char>>
    decreases paths.len(),
{
    if paths.len() == 0 {
        Seq::empty()
    } else {
        let rest = file_names(paths.drop_last());
        match file_name_of(paths.last()@) {
            Some(n) => rest.push(n),
            None => rest,
        }
    }
}

/// The common folder of the paths with their file names, as shell operations
/// on several items need them: none for no paths, when the first path has no
/// parent, or when some path lies in another folder.
pub open spec fn split_parent_of(paths: Seq<String>) -> Option<(Seq<char>, Seq<Seq<char>>)> {
    if paths.len() == 0 {
        None
    } else {
        match parent_of(paths[0]@) {
            None => None,
            Some(par) => if forall|k: int| 0 <= k < paths.len() ==> lies_in(#[trigger] paths[k]@, par) {
                Some((par, file_names(paths)))
            } else {
                None
            },
        }
    }
}

/// Splits paths into their common folder and their file names
/// (`split_parent_of`).
pub fn split_parent(paths: &Vec<String>) -> (r: Option<(String, Vec<String>)>)
    ensures
        match r {
            Some((p, names)) => split_parent_of(paths@) == Some(
                (p@, names@.map_values(|n: String| n@)),
            ),
            None => split_parent_of(paths@) is None,
        },
{
    if paths.len() == 0 {
        return None;
    }
    let parent = match path_parent(paths[0].as_str()) {
        Some(q) => q,
        None => return None,
    };
    let mut i: usize = 0;
    while i < paths.len()
        invariant
            i <= paths@.len(),
            parent_of(paths@[0]@) == Some(parent@),
            forall|k: int| 0 <= k < i ==> lies_in(#[trigger] paths@[k]@, parent@),
        decreases paths@.len() - i,
    {
        match path_parent(paths[i].as_str()) {
            Some(q) => {
                if !paths_equal(q.as_str(), parent.as_str()) {
                    assert(!lies_in(paths@[i as int]@, parent@));
                    return None;
                }
            },
            None => {
                assert(!lies_in(paths@[i as int]@, parent@));
                return None;
            },
        }
        i = i + 1;
    }
    let mut names: Vec<String> = Vec::new();
    let mut j: usize = 0;
    while j < paths.len()
        invariant
            j <= paths@.len(),
            names@.map_values(|n: String| n@) == file_names(paths@.take(j as int)),
        decreases paths@.len() - j,
    {
        proof {
            assert(paths@.take(j + 1).drop_last() =~= paths@.take(j as int));
        }
        match path_file_name(paths[j].as_str()) {
            Some(n) => {
                names.push(n);
            },
            None => {},
        }
        assert(names@.map_values(|n: String| n@) =~= file_names(paths@.take(j + 1)));
        j = j + 1;
    }
    assert(paths@.take(paths@.len() as int) =~= paths@);
    Some((parent, names))
}

/// The text of `base` joined with `name` (`Path::join`).
pub uninterp spec fn joined(base: Seq<char>, name: Seq<char>) -> Seq<char>;

/// Calls `Path::join` and converts the result to text (both parts are text,
/// so nothing is lost). The result is claimed to be the named join.
#[verifier::external_body]
pub(crate) fn path_join(base: &str, name: &str) -> (r: String)
    ensures
        r@ == joined(base@, name@),
{
    std::path::Path::new(base).join(name).to_string_lossy().into_owned()
}

/// The favorites offered when none are saved, for the home folder `home`:
/// its Desktop, Documents, Downloads and Pictures folders, labelled by those
/// names; none when the home folder is unknown.
pub fn favorites_in_home(home: Option<&str>) -> (r: Vec<FavoriteItem>)
    ensures
        home is None ==> r@.len() == 0,
        home matches Some(h) ==> {
            &&& r@.len() == 4
            &&& r@[0].path@ == joined(h@, "Desktop"@) && r@[0].label@ == "Desktop"@
            &&& r@[1].path@ == joined(h@, "Documents"@) && r@[1].label@ == "Documents"@
            &&& r@[2].path@ == joined(h@, "Downloads"@) && r@[2].label@ == "Downloads"@
            &&& r@[3].path@ == joined(h@, "Pictures"@) && r@[3].label@ == "Pictures"@
        },
{
    let mut favorites: Vec<FavoriteItem> = Vec::new();
    match home {
        Some(h) => {
            favorites.push(FavoriteItem { path: path_join(h, "Desktop"), label: "Desktop".to_string() });
            favorites.push(
                FavoriteItem { path: path_join(h, "Documents"), label: "Documents".to_string() },
            );
            favorites.push(
                FavoriteItem { path: path_join(h, "Downloads"), label: "Downloads".to_string() },
            );
            favorites.push(
                FavoriteItem { path: path_join(h, "Pictures"), label: "Pictures".to_string() },
            );
        },
        None => {},
    }
    favorites
}

/// Calls `dirs::home_dir` and converts the folder to text (lossily for
/// folders that are not valid Unicode). The result depends on the machine, so
/// nothing is claimed of it.
#[verifier::external_body]
fn home_folder() -> Option<String> {
    dirs::home_dir().map(|p| p.to_string_lossy().into_owned())
}

/// The favorites offered when none are saved: those of `favorites_in_home`
/// for the user's home folder.
pub fn default_favorites() -> (r: Vec<FavoriteItem>)
    ensures
        r@.len() == 0 || exists|h: Seq<char>|
            {
                &&& r@.len() == 4
                &&& r@[0].path@ == joined(h, "Desktop"@) && r@[0].label@ == "Desktop"@
                &&& r@[1].path@ == joined(h, "Documents"@) && r@[1].label@ == "Documents"@
                &&& r@[2].path@ == joined(h, "Downloads"@) && r@[2].label@ == "Downloads"@
                &&& r@[3].path@ == joined(h, "Pictures"@) && r@[3].label@ == "Pictures"@
            },
{
    let home = home_folder();
    match home {
        Some(h) => favorites_in_home(Some(h.as_str())),
        None => favorites_in_home(None),
    }
}

/// Where a rename to `name` moves the entry at `p`: the entry's folder
/// joined with the new name; nothing when the entry has no folder or the
/// target is the entry itself.
pub open spec fn rename_target_of(p: Seq<char>, name: Seq<char>) -> Option<Seq<char>> {
    match parent_of(p) {
        Some(par) => if same_path(p, joined(par, name)) {
            None
        } else {
            Some(joined(par, name))
        },
        None => None,
    }
}

/// Computes where a rename moves an entry (`rename_target_of`).
pub fn rename_target(path: &str, new_name: &str) -> (r: Option<String>)
    ensures
        match r {
            Some(t) => rename_target_of(path@, new_name@) == Some(t@),
            None => rename_target_of(path@, new_name@) is None,
        },
{
    match path_parent(path) {
        Some(parent) => {
            let target = path_join(parent.as_str(), new_name);
            if paths_equal(path, target.as_str()) {
                None
            } else {
                Some(target)
            }
        },
        None => None,
    }
}

/// The label shown for a favorite: the path's file name, or the whole path
/// when it has none (a drive root).
pub open spec fn label_for(p: Seq<char>) -> Seq<char> {
    match file_name_of(p) {
        Some(n) => n,
        None => p,
    }
}

/// Computes the label shown for a favorite path (`label_for`).
pub fn favorite_label(path: &str) -> (r: String)
    ensures
        r@ == label_for(path@),
{
    match path_file_name(path) {
        Some(n) => n,
        None => path.to_owned(),
    }
}

/// The favorites for saved paths, in order, each labelled by its file name
/// (`label_for`).
pub fn favorites_from_paths(paths: Vec<String>) -> (r: Vec<FavoriteItem>)
    ensures
        r@.len() == paths@.len(),
        forall|k: int|
            0 <= k < paths@.len() ==> #[trigger] r@[k].path == paths@[k] && r@[k].label@
                == label_for(paths@[k]@),
{
    let mut r: Vec<FavoriteItem> = Vec::new();
    let mut i: usize = 0;
    while i < paths.len()
        invariant
            i <= paths@.len(),
            r@.len() == i,
            forall|k: int|
                0 <= k < i ==> #[trigger] r@[k].path == paths@[k] && r@[k].label@ == label_for(
                    paths@[k]@,
                ),
        decreases paths@.len() - i,
    {
        let path = paths[i].clone();
        let label = favorite_label(path.as_str());
        r.push(FavoriteItem { path, label });
        i = i + 1;
    }
    r
}

/// The about window.
#[derive(Debug)]
pub struct AboutWindow {
    pub open: bool,
}

impl Default for AboutWindow {
    fn default() -> (r: Self)
        ensures
            !r.open,
    {
        AboutWindow { open: false }
    }
}

/// A favorite folder in the sidebar.
#[derive(Debug)]
pub struct FavoriteItem {
    pub path: String,
    pub label: String,
}

impl FavoriteItem {
    /// A copy of the favorite.
    pub fn duplicate(&self) -> (r: FavoriteItem)
        ensures
            r == *self,
    {
        FavoriteItem { path: self.path.clone(), label: self.label.clone() }
    }
}

/// Which view of a split tab has the focus.
#[derive(Clone, Copy, Debug, PartialEq, Eq, Structural)]
pub enum SplitSide {
    Primary,
    Secondary,
}

/// The second view of a split tab: the folder it shows and how it is sorted.
#[derive(Debug)]
pub struct ViewEntry {
    pub path: String,
    pub sort_column: SortColumn,
    pub sort_ascending: bool,
}

/// One open tab: its id, the folder its main view shows, how that view is
/// sorted, and its second view when the tab is split.
#[derive(Debug)]
pub struct TabEntry {
    pub id: u64,
    pub path: String,
    pub sort_column: SortColumn,
    pub sort_ascending: bool,
    pub split: Option<ViewEntry>,
}

/// A tab with its split toggled: a split tab loses its second view; an
/// unsplit tab gets one on its main view's folder and sort order.
pub open spec fn split_toggled(t: TabEntry) -> TabEntry {
    if t.split is Some {
        TabEntry { split: None, ..t }
    } else {
        TabEntry {
            split: Some(
                ViewEntry { path: t.path, sort_column: t.sort_column, sort_ascending: t.sort_ascending },
            ),
            ..t
        }
    }
}

/// A tab whose focused view is sorted by `column` in the given direction.
pub open spec fn with_focused_sort(
    t: TabEntry,
    side: SplitSide,
    column: SortColumn,
    ascending: bool,
) -> TabEntry {
    match t.split {
        Some(v) => if side == SplitSide::Secondary {
            TabEntry {
                split: Some(ViewEntry { sort_column: column, sort_ascending: ascending, ..v }),
                ..t
            }
        } else {
            TabEntry { sort_column: column, sort_ascending: ascending, ..t }
        },
        None => TabEntry { sort_column: column, sort_ascending: ascending, ..t },
    }
}

/// A tab whose focused view shows the folder `path`.
pub open spec fn with_focused_path(t: TabEntry, side: SplitSide, path: String) -> TabEntry {
    match t.split {
        Some(v) => if side == SplitSide::Secondary {
            TabEntry { split: Some(ViewEntry { path, ..v }), ..t }
        } else {
            TabEntry { path, ..t }
        },
        None => TabEntry { path, ..t },
    }
}

/// The sort order the tabs opened at start-up take: that of the first tab's
/// main view when nothing is pinned (the first folder then replaces that
/// tab's folder), else that of the active tab's focused view.
pub open spec fn startup_sort(
    tabs: Seq<TabEntry>,
    active: int,
    side: SplitSide,
    pinned: int,
) -> (SortColumn, bool) {
    if pinned == 0 {
        (tabs[0].sort_column, tabs[0].sort_ascending)
    } else {
        let v = focused_view(tabs[active], side);
        (v.1, v.2)
    }
}

/// Splitting a tab and closing the split again gives back the tab as it was.
pub proof fn lemma_split_twice_restores(t: TabEntry)
    requires
        t.split is None,
    ensures
        split_toggled(split_toggled(t)) == t,
{
}

/// The folder and sort order of the view of a tab that has the focus: the
/// second view when the focus is on it and the tab is split, the main view
/// otherwise.
pub open spec fn focused_view(t: TabEntry, side: SplitSide) -> (Seq<char>, SortColumn, bool) {
    match t.split {
        Some(v) => if side == SplitSide::Secondary {
            (v.path@, v.sort_column, v.sort_ascending)
        } else {
            (t.path@, t.sort_column, t.sort_ascending)
        },
        None => (t.path@, t.sort_column, t.sort_ascending),
    }
}

/// The tabs, favorites and pins of the main window.
#[derive(Debug)]
pub struct Workspace {
    pub tabs: Vec<TabEntry>,
    pub active_tab: usize,
    pub next_tab_id: u64,
    pub focused_split: SplitSide,
    pub pending_tab_scroll_id: Option<u64>,
    pub tab_infos_dirty: bool,
    pub pinned_tabs: Vec<String>,
    pub favorites: Vec<FavoriteItem>,
    pub item_clicked: Option<String>,
}

/// At least one tab, the active index within range, every id below the next
/// id to hand out, and no id twice.
pub open spec fn tabs_wf(tabs: Seq<TabEntry>, active: int, next_id: u64) -> bool {
    &&& tabs.len() >= 1
    &&& 0 <= active < tabs.len()
    &&& forall|k: int| 0 <= k < tabs.len() ==> #[trigger] tabs[k].id < next_id
    &&& forall|k: int, l: int| 0 <= k < l < tabs.len() ==> #[trigger] tabs[k].id != #[trigger] tabs[l].id
}

/// Whether a tab with this id is open.
pub open spec fn has_tab(tabs: Seq<TabEntry>, id: u64) -> bool {
    exists|k: int| 0 <= k < tabs.len() && #[trigger] tabs[k].id == id
}

/// The pins left after removing every pin naming the path `p`.
pub open spec fn without_path(pins: Seq<String>, p: Seq<char>) -> Seq<String>
    decreases pins.len(),
{
    if pins.len() == 0 {
        pins
    } else {
        let rest = without_path(pins.drop_last(), p);
        if same_path(pins.last()@, p) {
            rest
        } else {
            rest.push(pins.last())
        }
    }
}

/// Whether some path of the list is the same path as `p`.
pub open spec fn contains_path(pins: Seq<String>, p: Seq<char>) -> bool {
    exists|k: int| 0 <= k < pins.len() && same_path(#[trigger] pins[k]@, p)
}

/// The pins after toggling `p`: unpinned everywhere when pinned, appended
/// otherwise.
pub open spec fn toggled_pins(pins: Seq<String>, p: String) -> Seq<String> {
    if contains_path(pins, p@) {
        without_path(pins, p@)
    } else {
        pins.push(p)
    }
}

/// Whether some favorite has exactly the path `p`.
pub open spec fn is_favorite(favs: Seq<FavoriteItem>, p: Seq<char>) -> bool {
    exists|k: int| 0 <= k < favs.len() && same_path(#[trigger] favs[k].path@, p)
}

/// The favorites left after removing every favorite with the path `p`.
pub open spec fn favorites_without(favs: Seq<FavoriteItem>, p: Seq<char>) -> Seq<FavoriteItem>
    decreases favs.len(),
{
    if favs.len() == 0 {
        favs
    } else {
        let rest = favorites_without(favs.drop_last(), p);
        if same_path(favs.last().path@, p) {
            rest
        } else {
            rest.push(favs.last())
        }
    }
}

/// Where a favorite dragged from position `from` lands when dropped before
/// position `to` of the list of `len` favorites: one place earlier when it
/// moves down (it left a gap above), and never past the end.
pub open spec fn reorder_target(from: int, to: int, len: int) -> int {
    let t = if to > from {
        to - 1
    } else {
        to
    };
    if t < len - 1 {
        t
    } else {
        len - 1
    }
}

/// The favorites after dragging the one at `from` to `to` (nothing happens
/// when `from` is out of range).
pub open spec fn reordered(favs: Seq<FavoriteItem>, from: int, to: int) -> Seq<FavoriteItem> {
    if 0 <= from < favs.len() {
        favs.remove(from).insert(reorder_target(from, to, favs.len() as int), favs[from])
    } else {
        favs
    }
}

/// The column and direction after clicking a column header: the same column
/// flips the direction, another column sorts by it ascending.
pub open spec fn sort_after_click(
    column: SortColumn,
    ascending: bool,
    clicked: SortColumn,
) -> (SortColumn, bool) {
    if column == clicked {
        (column, !ascending)
    } else {
        (clicked, true)
    }
}

/// Clicking a column header: the same column flips the direction, another
/// column sorts by it ascending.
pub fn sort_after_header_click(column: SortColumn, ascending: bool, clicked: SortColumn) -> (r: (
    SortColumn,
    bool,
))
    ensures
        r == sort_after_click(column, ascending, clicked),
{
    if column == clicked {
        (column, !ascending)
    } else {
        (clicked, true)
    }
}

/// What closing a tab did.
#[derive(Clone, Copy, Debug, PartialEq, Eq, Structural)]
pub enum CloseOutcome {
    /// The tab was closed.
    Closed,
    /// No open tab has that id; nothing changed.
    NotFound,
    /// It was the last tab: instead of closing, it was reset to the start
    /// folder.
    ResetLastTab,
}

impl Workspace {
    /// The workspace invariant (`tabs_wf`).
    pub open spec fn wf(&self) -> bool {
        tabs_wf(self.tabs@, self.active_tab as int, self.next_tab_id)
    }

    /// A workspace with one tab on `start_path`, sorted as given, with the
    /// given pins and favorites.
    pub fn new(
        start_path: String,
        sort_column: SortColumn,
        sort_ascending: bool,
        pinned_tabs: Vec<String>,
        favorites: Vec<FavoriteItem>,
    ) -> (w: Workspace)
        ensures
            w.wf(),
            w.tabs@.len() == 1,
            w.tabs@[0] == (TabEntry {
                id: 1,
                path: start_path,
                sort_column,
                sort_ascending,
                split: None,
            }),
            w.active_tab == 0,
            w.next_tab_id == 2,
            w.focused_split is Primary,
            w.pinned_tabs@ == pinned_tabs@,
            w.favorites@ == favorites@,
    {
        let tab = TabEntry {
            id: 1,
            path: start_path,
            sort_column,
            sort_ascending,
            split: None,
        };
        let mut tabs = Vec::new();
        tabs.push(tab);
        Workspace {
            tabs,
            active_tab: 0,
            next_tab_id: 2,
            focused_split: SplitSide::Primary,
            pending_tab_scroll_id: None,
            tab_infos_dirty: true,
            pinned_tabs,
            favorites,
            item_clicked: None,
        }
    }

    /// The tabs the main window starts with: one per pinned path, in order,
    /// or a single tab on `start_path` when nothing is pinned. Ids count from
    /// 1; the first tab is active.
    pub fn from_settings(
        start_path: String,
        sort_column: SortColumn,
        sort_ascending: bool,
        pinned_tabs: Vec<String>,
        favorites: Vec<FavoriteItem>,
    ) -> (w: Workspace)
        requires
            pinned_tabs@.len() < u64::MAX - 1,
        ensures
            w.wf(),
            w.active_tab == 0,
            w.focused_split is Primary,
            w.pinned_tabs@ == pinned_tabs@,
            w.favorites@ == favorites@,
            pinned_tabs@.len() == 0 ==> w.tabs@.len() == 1 && w.tabs@[0].path == start_path
                && w.tabs@[0].id == 1 && w.next_tab_id == 2,
            pinned_tabs@.len() > 0 ==> w.tabs@.len() == pinned_tabs@.len() && w.next_tab_id
                == pinned_tabs@.len() + 1 && forall|k: int|
                0 <= k < pinned_tabs@.len() ==> #[trigger] w.tabs@[k].path == pinned_tabs@[k]
                    && w.tabs@[k].id == k + 1,
            forall|k: int|
                0 <= k < w.tabs@.len() ==> #[trigger] w.tabs@[k].sort_column == sort_column
                    && w.tabs@[k].sort_ascending == sort_ascending && w.tabs@[k].split is None,
    {
        if pinned_tabs.len() == 0 {
            return Workspace::new(start_path, sort_column, sort_ascending, pinned_tabs, favorites);
        }
        let mut tabs: Vec<TabEntry> = Vec::new();
        let mut i: usize = 0;
        while i < pinned_tabs.len()
            invariant
                i <= pinned_tabs@.len(),
                pinned_tabs@.len() < u64::MAX - 1,
                tabs@.len() == i,
                forall|k: int|
                    #![trigger tabs@[k]]
                    0 <= k < i ==> tabs@[k].path == pinned_tabs@[k] && tabs@[k].id == k + 1
                        && tabs@[k].sort_column == sort_column && tabs@[k].sort_ascending
                        == sort_ascending && tabs@[k].split is None,
            decreases pinned_tabs@.len() - i,
        {
            let id = (i as u64) + 1;
            let ghost before = tabs@;
            let path = pinned_tabs[i].clone();
            assert(path == pinned_tabs@[i as int]);
            assert(id == i + 1);
            tabs.push(
                TabEntry {
                    id,
                    path,
                    sort_column,
                    sort_ascending,
                    split: None,
                },
            );
            assert forall|k: int| #![trigger tabs@[k]] 0 <= k < i + 1 implies tabs@[k].path
                == pinned_tabs@[k] && tabs@[k].id == k + 1 && tabs@[k].sort_column == sort_column
                && tabs@[k].sort_ascending == sort_ascending && tabs@[k].split is None by {
                if k < i {
                    assert(tabs@[k] == before[k]);
                }
            }
            i = i + 1;
        }
        let next_tab_id = (pinned_tabs.len() as u64) + 1;
        assert forall|k: int, l: int| 0 <= k < l < tabs@.len() implies #[trigger] tabs@[k].id
            != #[trigger] tabs@[l].id by {
            assert(tabs@[k].id == k + 1);
            assert(tabs@[l].id == l + 1);
        }
        assert forall|k: int| 0 <= k < tabs@.len() implies #[trigger] tabs@[k].id < next_tab_id by {
            assert(tabs@[k].id == k + 1);
        }
        Workspace {
            tabs,
            active_tab: 0,
            next_tab_id,
            focused_split: SplitSide::Primary,
            pending_tab_scroll_id: None,
            tab_infos_dirty: true,
            pinned_tabs,
            favorites,
            item_clicked: None,
        }
    }

    /// Opens the folders the program was started with. With no pins, the
    /// first tab shows the first folder; with pins, the first folder opens in
    /// a new tab after the pinned ones. Every further folder opens in a new
    /// tab. The first folder's tab ends up active, with focus on its main
    /// view, and the tab bar scrolls to it. Nothing changes when no folder is
    /// given.
    pub fn open_startup_paths(&mut self, paths: Vec<String>)
        requires
            old(self).wf(),
            old(self).pinned_tabs@.len() <= old(self).tabs@.len(),
            old(self).next_tab_id + paths@.len() < u64::MAX,
        ensures
            final(self).wf(),
            paths@.len() > 0 ==> final(self).tab_infos_dirty,
            final(self).item_clicked == old(self).item_clicked,
            paths@.len() == 0 ==> final(self).tabs@ == old(self).tabs@ && final(self).active_tab
                == old(self).active_tab,
            paths@.len() > 0 ==> {
                let pinned = old(self).pinned_tabs@.len();
                let lo: int = if pinned == 0 {
                    1
                } else {
                    0
                };
                let opened = paths@.len() - lo;
                let s = startup_sort(
                    old(self).tabs@,
                    old(self).active_tab as int,
                    old(self).focused_split,
                    pinned as int,
                );
                &&& final(self).tabs@.len() == old(self).tabs@.len() + opened
                &&& final(self).next_tab_id == old(self).next_tab_id + opened
                &&& final(self).active_tab == pinned
                &&& final(self).focused_split is Primary
                &&& final(self).pending_tab_scroll_id == Some(
                    final(self).tabs@[pinned as int].id,
                )
                &&& pinned == 0 ==> final(self).tabs@[0] == (TabEntry { path: paths@[0], ..old(self).tabs@[0] })
                &&& forall|k: int|
                    0 <= k < old(self).tabs@.len() && !(pinned == 0 && k == 0)
                        ==> #[trigger] final(self).tabs@[k] == old(self).tabs@[k]
                &&& forall|k: int|
                    lo <= k < paths@.len() ==> #[trigger] final(self).tabs@[old(self).tabs@.len()
                        - lo + k] == (TabEntry {
                        id: (old(self).next_tab_id + (k - lo)) as u64,
                        path: paths@[k],
                        sort_column: s.0,
                        sort_ascending: s.1,
                        split: None,
                    })
            },
            final(self).pinned_tabs@ == old(self).pinned_tabs@,
            final(self).favorites@ == old(self).favorites@,
    {
        if paths.len() == 0 {
            return;
        }
        let pinned_count = self.pinned_tabs.len();
        let ghost start_len = self.tabs@.len();
        if pinned_count == 0 {
            let first = paths[0].clone();
            let mut tab = self.tabs.remove(0);
            tab.path = first;
            self.tabs.insert(0, tab);
            assert(self.tabs@[0] == (TabEntry { path: paths@[0], ..old(self).tabs@[0] }));
            assert(self.tabs@ =~= old(self).tabs@.update(0, self.tabs@[0]));
            assert forall|k: int| 0 <= k < self.tabs@.len() implies #[trigger] self.tabs@[k].id
                == old(self).tabs@[k].id by {
                if k != 0 {
                    assert(self.tabs@[k] == old(self).tabs@[k]);
                }
            }
            self.active_tab = 0;
            self.focused_split = SplitSide::Primary;
        } else {
            self.open_new_tab(paths[0].clone());
        }
        let ghost base = self.tabs@.len();
        let ghost lo: int = if pinned_count == 0 {
            1
        } else {
            0
        };
        let ghost s = startup_sort(
            old(self).tabs@,
            old(self).active_tab as int,
            old(self).focused_split,
            pinned_count as int,
        );
        assert(forall|k: int| 0 <= k < start_len && !(lo == 1 && k == 0) ==> #[trigger] self.tabs@[k]
            == old(self).tabs@[k]);
        assert(base == start_len + 1 - lo);
        assert(pinned_count == 0 ==> self.tabs@[0].path == paths@[0]);
        assert(pinned_count > 0 ==> self.tabs@[base - 1].path == paths@[0]);
        let mut i: usize = 1;
        while i < paths.len()
            invariant
                self.wf(),
                1 <= i <= paths@.len(),
                lo == 0 || lo == 1,
                lo == 1 <==> pinned_count == 0,
                base == start_len + 1 - lo,
                start_len >= pinned_count,
                self.tabs@.len() == base + (i - 1),
                pinned_count == 0 ==> self.tabs@[0].path == paths@[0],
                self.next_tab_id + (paths@.len() - i) < u64::MAX,
                self.pinned_tabs@ == old(self).pinned_tabs@,
                self.favorites@ == old(self).favorites@,
                self.item_clicked == old(self).item_clicked,
                self.next_tab_id == old(self).next_tab_id + i - lo,
                forall|k: int| lo <= k < i ==> #[trigger] self.tabs@[base - 1 + k].path == paths@[k],
                (focused_view(self.tabs@[self.active_tab as int], self.focused_split).1,
                    focused_view(self.tabs@[self.active_tab as int], self.focused_split).2) == s,
                lo == 1 ==> self.tabs@[0] == (TabEntry { path: paths@[0], ..old(self).tabs@[0] }),
                forall|k: int|
                    0 <= k < start_len && !(lo == 1 && k == 0) ==> #[trigger] self.tabs@[k]
                        == old(self).tabs@[k],
                forall|k: int|
                    lo <= k < i ==> #[trigger] self.tabs@[base - 1 + k] == (TabEntry {
                        id: (old(self).next_tab_id + (k - lo)) as u64,
                        path: paths@[k],
                        sort_column: s.0,
                        sort_ascending: s.1,
                        split: None,
                    }),
            decreases paths@.len() - i,
        {
            let ghost before = self.tabs@;
            self.open_new_tab(paths[i].clone());
            assert forall|k: int| lo <= k < i + 1 implies #[trigger] self.tabs@[base - 1 + k].path
                == paths@[k] by {
                if k < i {
                    assert(self.tabs@[base - 1 + k] == before[base - 1 + k]);
                }
            }
            assert forall|k: int| 0 <= k < start_len && !(lo == 1 && k == 0) implies #[trigger] self.tabs@[k]
                == old(self).tabs@[k] by {
                assert(self.tabs@[k] == before[k]);
            }
            assert forall|k: int| lo <= k < i + 1 implies #[trigger] self.tabs@[base - 1 + k] == (TabEntry {
                id: (old(self).next_tab_id + (k - lo)) as u64,
                path: paths@[k],
                sort_column: s.0,
                sort_ascending: s.1,
                split: None,
            }) by {
                if k < i {
                    assert(self.tabs@[base - 1 + k] == before[base - 1 + k]);
                }
            }
            proof {
                if pinned_count == 0 {
                    assert(self.tabs@[0] == before[0]);
                }
            }
            i = i + 1;
        }
        self.active_tab = pinned_count;
        self.focused_split = SplitSide::Primary;
        let id = self.tabs[pinned_count].id;
        self.pending_tab_scroll_id = Some(id);
        self.tab_infos_dirty = true;
    }

    /// Opens each folder forwarded by another instance of the program in a
    /// new tab, in order; the last one ends up active.
    pub fn open_forwarded_paths(&mut self, paths: Vec<String>)
        requires
            old(self).wf(),
            old(self).next_tab_id + paths@.len() < u64::MAX,
        ensures
            final(self).wf(),
            final(self).tabs@.len() == old(self).tabs@.len() + paths@.len(),
            final(self).tabs@.take(old(self).tabs@.len() as int) == old(self).tabs@,
            forall|k: int|
                0 <= k < paths@.len() ==> #[trigger] final(self).tabs@[old(self).tabs@.len() + k].path
                    == paths@[k],
            final(self).next_tab_id == old(self).next_tab_id + paths@.len(),
            paths@.len() > 0 ==> final(self).active_tab == final(self).tabs@.len() - 1,
            paths@.len() == 0 ==> final(self).active_tab == old(self).active_tab,
            final(self).focused_split == old(self).focused_split,
            final(self).pending_tab_scroll_id == old(self).pending_tab_scroll_id,
            final(self).pinned_tabs@ == old(self).pinned_tabs@,
            final(self).favorites@ == old(self).favorites@,
            final(self).item_clicked == old(self).item_clicked,
    {
        let ghost start = self.tabs@;
        let mut i: usize = 0;
        while i < paths.len()
            invariant
                self.wf(),
                i <= paths@.len(),
                self.tabs@.len() == start.len() + i,
                self.tabs@.take(start.len() as int) == start,
                start == old(self).tabs@,
                forall|k: int| 0 <= k < i ==> #[trigger] self.tabs@[start.len() + k].path == paths@[k],
                self.next_tab_id == old(self).next_tab_id + i,
                old(self).next_tab_id + paths@.len() < u64::MAX,
                i > 0 ==> self.active_tab == self.tabs@.len() - 1,
                i == 0 ==> self.active_tab == old(self).active_tab,
                self.focused_split == old(self).focused_split,
                self.pending_tab_scroll_id == old(self).pending_tab_scroll_id,
                self.pinned_tabs@ == old(self).pinned_tabs@,
                self.favorites@ == old(self).favorites@,
                self.item_clicked == old(self).item_clicked,
            decreases paths@.len() - i,
        {
            let ghost before = self.tabs@;
            self.open_new_tab(paths[i].clone());
            assert(self.tabs@.take(start.len() as int) =~= before.take(start.len() as int));
            assert forall|k: int| 0 <= k < i + 1 implies #[trigger] self.tabs@[start.len() + k].path
                == paths@[k] by {
                if k < i {
                    assert(self.tabs@[start.len() + k] == before[start.len() + k]);
                }
            }
            i = i + 1;
        }
        assert(self.tabs@.take(start.len() as int) =~= old(self).tabs@);
    }

    /// The paths of the favorites, in order, as they are saved.
    pub fn favorite_paths(&self) -> (r: Vec<String>)
        ensures
            r@.len() == self.favorites@.len(),
            forall|k: int| 0 <= k < r@.len() ==> #[trigger] r@[k] == self.favorites@[k].path,
    {
        let mut r: Vec<String> = Vec::new();
        let mut i: usize = 0;
        while i < self.favorites.len()
            invariant
                i <= self.favorites@.len(),
                r@.len() == i,
                forall|k: int| 0 <= k < i ==> #[trigger] r@[k] == self.favorites@[k].path,
            decreases self.favorites@.len() - i,
        {
            r.push(self.favorites[i].path.clone());
            i = i + 1;
        }
        r
    }

    /// Whether the folder a view shows is among the favorites.
    pub fn is_favorited(&self, path: &str) -> (b: bool)
        ensures
            b == is_favorite(self.favorites@, path@),
    {
        let mut i: usize = 0;
        while i < self.favorites.len()
            invariant
                i <= self.favorites@.len(),
                forall|k: int| 0 <= k < i ==> !same_path(#[trigger] self.favorites@[k].path@, path@),
            decreases self.favorites@.len() - i,
        {
            if paths_equal(self.favorites[i].path.as_str(), path) {
                return true;
            }
            i = i + 1;
        }
        false
    }

    /// Opens a new tab on `path`, with the sort order of the active tab's
    /// focused view and a fresh id, and makes it active.
    pub fn open_new_tab(&mut self, path: String)
        requires
            old(self).wf(),
            old(self).next_tab_id < u64::MAX,
        ensures
            final(self).wf(),
            ({
                let v = focused_view(old(self).tabs@[old(self).active_tab as int], old(self).focused_split);
                final(self).tabs@ == old(self).tabs@.push(
                    TabEntry {
                        id: old(self).next_tab_id,
                        path,
                        sort_column: v.1,
                        sort_ascending: v.2,
                        split: None,
                    },
                )
            }),
            !has_tab(old(self).tabs@, old(self).next_tab_id),
            final(self).next_tab_id == old(self).next_tab_id + 1,
            final(self).active_tab == old(self).tabs@.len(),
            final(self).tab_infos_dirty,
            final(self).focused_split == old(self).focused_split,
            final(self).pending_tab_scroll_id == old(self).pending_tab_scroll_id,
            final(self).pinned_tabs@ == old(self).pinned_tabs@,
            final(self).favorites@ == old(self).favorites@,
            final(self).item_clicked == old(self).item_clicked,
    {
        let (_, sort_column, sort_ascending) = self.focused_view_of_active();
        self.push_tab(path, sort_column, sort_ascending);
    }

    /// Opens a new tab on `path`, sorted as given, with a fresh id, and makes
    /// it active.
    fn push_tab(&mut self, path: String, sort_column: SortColumn, sort_ascending: bool)
        requires
            old(self).wf(),
            old(self).next_tab_id < u64::MAX,
        ensures
            final(self).wf(),
            final(self).tabs@ == old(self).tabs@.push(
                TabEntry {
                    id: old(self).next_tab_id,
                    path,
                    sort_column,
                    sort_ascending,
                    split: None,
                },
            ),
            !has_tab(old(self).tabs@, old(self).next_tab_id),
            final(self).next_tab_id == old(self).next_tab_id + 1,
            final(self).active_tab == old(self).tabs@.len(),
            final(self).tab_infos_dirty,
            final(self).focused_split == old(self).focused_split,
            final(self).pending_tab_scroll_id == old(self).pending_tab_scroll_id,
            final(self).pinned_tabs@ == old(self).pinned_tabs@,
            final(self).favorites@ == old(self).favorites@,
            final(self).item_clicked == old(self).item_clicked,
    {
        let id = self.next_tab_id;
        self.next_tab_id = self.next_tab_id + 1;
        self.tabs.push(TabEntry { id, path, sort_column, sort_ascending, split: None });
        self.active_tab = self.tabs.len() - 1;
        self.tab_infos_dirty = true;
    }

    /// The folder and sort order of the active tab's focused view
    /// (`focused_view`).
    pub fn focused_view_of_active(&self) -> (r: (String, SortColumn, bool))
        requires
            self.wf(),
        ensures
            (r.0@, r.1, r.2) == focused_view(self.tabs@[self.active_tab as int], self.focused_split),
    {
        let a = self.active_tab;
        match &self.tabs[a].split {
            Some(v) => match self.focused_split {
                SplitSide::Secondary => (v.path.clone(), v.sort_column, v.sort_ascending),
                SplitSide::Primary => (
                    self.tabs[a].path.clone(),
                    self.tabs[a].sort_column,
                    self.tabs[a].sort_ascending,
                ),
            },
            None => (self.tabs[a].path.clone(), self.tabs[a].sort_column, self.tabs[a].sort_ascending),
        }
    }

    /// Opens a new tab on the folder of the active tab's focused view, with
    /// that view's sort order, makes it active and scrolls the tab bar to it
    /// (the "new tab" action).
    pub fn duplicate_active_tab(&mut self)
        requires
            old(self).wf(),
            old(self).next_tab_id < u64::MAX,
        ensures
            final(self).wf(),
            final(self).item_clicked == old(self).item_clicked,
            final(self).tabs@.len() == old(self).tabs@.len() + 1,
            final(self).tabs@.drop_last() == old(self).tabs@,
            final(self).tabs@.last().id == old(self).next_tab_id,
            ({
                let v = focused_view(old(self).tabs@[old(self).active_tab as int], old(self).focused_split);
                &&& final(self).tabs@.last().path@ == v.0
                &&& final(self).tabs@.last().sort_column == v.1
                &&& final(self).tabs@.last().sort_ascending == v.2
            }),
            final(self).tabs@.last().split is None,
            final(self).active_tab == old(self).tabs@.len(),
            final(self).next_tab_id == old(self).next_tab_id + 1,
            final(self).focused_split is Primary,
            final(self).pending_tab_scroll_id == Some(old(self).next_tab_id),
            final(self).tab_infos_dirty,
            final(self).pinned_tabs@ == old(self).pinned_tabs@,
            final(self).favorites@ == old(self).favorites@,
    {
        let (path, sort_column, sort_ascending) = self.focused_view_of_active();
        let id = self.next_tab_id;
        self.push_tab(path, sort_column, sort_ascending);
        self.focused_split = SplitSide::Primary;
        self.pending_tab_scroll_id = Some(id);
        assert(self.tabs@.drop_last() =~= old(self).tabs@);
    }

    /// Replaces the active tab's second view and leaves everything else as it
    /// was.
    fn set_active_split(&mut self, split: Option<ViewEntry>)
        requires
            old(self).wf(),
        ensures
            final(self).wf(),
            final(self).tabs@ == old(self).tabs@.update(
                old(self).active_tab as int,
                TabEntry { split, ..old(self).tabs@[old(self).active_tab as int] },
            ),
            final(self).active_tab == old(self).active_tab,
            final(self).next_tab_id == old(self).next_tab_id,
            final(self).focused_split == old(self).focused_split,
            final(self).pending_tab_scroll_id == old(self).pending_tab_scroll_id,
            final(self).pinned_tabs@ == old(self).pinned_tabs@,
            final(self).favorites@ == old(self).favorites@,
            final(self).tab_infos_dirty == old(self).tab_infos_dirty,
            final(self).item_clicked == old(self).item_clicked,
    {
        let a = self.active_tab;
        let mut tab = self.tabs.remove(a);
        tab.split = split;
        self.tabs.insert(a, tab);
        assert(self.tabs@ =~= old(self).tabs@.update(
            a as int,
            TabEntry { split, ..old(self).tabs@[a as int] },
        ));
        assert forall|k: int| 0 <= k < self.tabs@.len() implies #[trigger] self.tabs@[k].id
            == old(self).tabs@[k].id by {
            if k != a {
                assert(self.tabs@[k] == old(self).tabs@[k]);
            }
        }
    }

    /// Splits the active tab, or closes its split. A tab without a split gets
    /// a second view on the main view's folder and sort order, and the focus
    /// moves to it; closing the split moves the focus back to the main view.
    pub fn toggle_split(&mut self)
        requires
            old(self).wf(),
        ensures
            final(self).wf(),
            final(self).pending_tab_scroll_id == old(self).pending_tab_scroll_id,
            final(self).tab_infos_dirty == old(self).tab_infos_dirty,
            final(self).item_clicked == old(self).item_clicked,
            final(self).tabs@ == old(self).tabs@.update(
                old(self).active_tab as int,
                split_toggled(old(self).tabs@[old(self).active_tab as int]),
            ),
            old(self).tabs@[old(self).active_tab as int].split is Some
                ==> final(self).focused_split is Primary,
            old(self).tabs@[old(self).active_tab as int].split is None
                ==> final(self).focused_split is Secondary,
            final(self).active_tab == old(self).active_tab,
            final(self).next_tab_id == old(self).next_tab_id,
            final(self).pinned_tabs@ == old(self).pinned_tabs@,
            final(self).favorites@ == old(self).favorites@,
    {
        let a = self.active_tab;
        if self.tabs[a].split.is_some() {
            self.set_active_split(None);
            self.focused_split = SplitSide::Primary;
        } else {
            let view = ViewEntry {
                path: self.tabs[a].path.clone(),
                sort_column: self.tabs[a].sort_column,
                sort_ascending: self.tabs[a].sort_ascending,
            };
            self.set_active_split(Some(view));
            self.focused_split = SplitSide::Secondary;
        }
    }

    /// Shows `path` in the active tab's second view, creating the split or
    /// replacing the folder it shows. The second view takes the main view's
    /// sort order, and the focus moves to it.
    pub fn open_in_split(&mut self, path: String)
        requires
            old(self).wf(),
        ensures
            final(self).wf(),
            final(self).pending_tab_scroll_id == old(self).pending_tab_scroll_id,
            final(self).tab_infos_dirty == old(self).tab_infos_dirty,
            final(self).item_clicked == old(self).item_clicked,
            ({
                let a = old(self).active_tab as int;
                let t = old(self).tabs@[a];
                final(self).tabs@ == old(self).tabs@.update(
                    a,
                    TabEntry {
                        split: Some(
                            ViewEntry {
                                path,
                                sort_column: t.sort_column,
                                sort_ascending: t.sort_ascending,
                            },
                        ),
                        ..t
                    },
                )
            }),
            final(self).focused_split is Secondary,
            final(self).active_tab == old(self).active_tab,
            final(self).next_tab_id == old(self).next_tab_id,
            final(self).pinned_tabs@ == old(self).pinned_tabs@,
            final(self).favorites@ == old(self).favorites@,
    {
        let a = self.active_tab;
        let view = ViewEntry {
            path,
            sort_column: self.tabs[a].sort_column,
            sort_ascending: self.tabs[a].sort_ascending,
        };
        self.set_active_split(Some(view));
        self.focused_split = SplitSide::Secondary;
    }

    /// Records that the active tab's focused view now shows `path`, after it
    /// navigated there.
    pub fn set_focused_path(&mut self, path: String)
        requires
            old(self).wf(),
        ensures
            final(self).wf(),
            final(self).tabs@ == old(self).tabs@.update(
                old(self).active_tab as int,
                with_focused_path(
                    old(self).tabs@[old(self).active_tab as int],
                    old(self).focused_split,
                    path,
                ),
            ),
            final(self).active_tab == old(self).active_tab,
            final(self).focused_split == old(self).focused_split,
            final(self).next_tab_id == old(self).next_tab_id,
            final(self).pending_tab_scroll_id == old(self).pending_tab_scroll_id,
            final(self).tab_infos_dirty == old(self).tab_infos_dirty,
            final(self).item_clicked == old(self).item_clicked,
            final(self).pinned_tabs@ == old(self).pinned_tabs@,
            final(self).favorites@ == old(self).favorites@,
    {
        let a = self.active_tab;
        let side = self.focused_split;
        let tab = self.tabs.remove(a);
        let TabEntry { id, path: main_path, sort_column, sort_ascending, split } = tab;
        let updated = match split {
            Some(v) => match side {
                SplitSide::Secondary => TabEntry {
                    id,
                    path: main_path,
                    sort_column,
                    sort_ascending,
                    split: Some(
                        ViewEntry {
                            path,
                            sort_column: v.sort_column,
                            sort_ascending: v.sort_ascending,
                        },
                    ),
                },
                SplitSide::Primary => TabEntry { id, path, sort_column, sort_ascending, split: Some(v) },
            },
            None => TabEntry { id, path, sort_column, sort_ascending, split: None },
        };
        self.tabs.insert(a, updated);
        assert(self.tabs@ =~= old(self).tabs@.update(
            a as int,
            with_focused_path(old(self).tabs@[a as int], side, path),
        ));
        assert forall|k: int| 0 <= k < self.tabs@.len() implies #[trigger] self.tabs@[k].id
            == old(self).tabs@[k].id by {
            if k != a {
                assert(self.tabs@[k] == old(self).tabs@[k]);
            }
        }
    }

    /// A click on a column header of the focused view: the same column flips
    /// the direction, another column sorts by it ascending. Returns the new
    /// column and direction, which new tabs start with.
    pub fn toggle_sort(&mut self, clicked: SortColumn) -> (r: (SortColumn, bool))
        requires
            old(self).wf(),
        ensures
            final(self).wf(),
            final(self).pending_tab_scroll_id == old(self).pending_tab_scroll_id,
            final(self).tab_infos_dirty == old(self).tab_infos_dirty,
            final(self).item_clicked == old(self).item_clicked,
            ({
                let a = old(self).active_tab as int;
                let v = focused_view(old(self).tabs@[a], old(self).focused_split);
                &&& r == sort_after_click(v.1, v.2, clicked)
                &&& final(self).tabs@ == old(self).tabs@.update(
                    a,
                    with_focused_sort(old(self).tabs@[a], old(self).focused_split, r.0, r.1),
                )
            }),
            final(self).active_tab == old(self).active_tab,
            final(self).focused_split == old(self).focused_split,
            final(self).next_tab_id == old(self).next_tab_id,
            final(self).pinned_tabs@ == old(self).pinned_tabs@,
            final(self).favorites@ == old(self).favorites@,
    {
        let (_, column, ascending) = self.focused_view_of_active();
        let r = sort_after_header_click(column, ascending, clicked);
        let a = self.active_tab;
        let side = self.focused_split;
        let tab = self.tabs.remove(a);
        let TabEntry { id, path, sort_column, sort_ascending, split } = tab;
        let updated = match split {
            Some(v) => match side {
                SplitSide::Secondary => TabEntry {
                    id,
                    path,
                    sort_column,
                    sort_ascending,
                    split: Some(
                        ViewEntry { path: v.path, sort_column: r.0, sort_ascending: r.1 },
                    ),
                },
                SplitSide::Primary => TabEntry {
                    id,
                    path,
                    sort_column: r.0,
                    sort_ascending: r.1,
                    split: Some(v),
                },
            },
            None => TabEntry { id, path, sort_column: r.0, sort_ascending: r.1, split: None },
        };
        self.tabs.insert(a, updated);
        assert(self.tabs@ =~= old(self).tabs@.update(
            a as int,
            with_focused_sort(old(self).tabs@[a as int], side, r.0, r.1),
        ));
        assert forall|k: int| 0 <= k < self.tabs@.len() implies #[trigger] self.tabs@[k].id
            == old(self).tabs@[k].id by {
            if k != a {
                assert(self.tabs@[k] == old(self).tabs@[k]);
            }
        }
        r
    }

    /// Makes the tab with this id active, with focus on its main view, and
    /// scrolls the tab bar to it.
    pub fn activate_tab(&mut self, id: u64)
        requires
            old(self).wf(),
            has_tab(old(self).tabs@, id),
        ensures
            final(self).wf(),
            final(self).tab_infos_dirty == old(self).tab_infos_dirty,
            final(self).item_clicked == old(self).item_clicked,
            final(self).tabs@ == old(self).tabs@,
            final(self).tabs@[final(self).active_tab as int].id == id,
            final(self).focused_split is Primary,
            final(self).pending_tab_scroll_id == Some(id),
            final(self).next_tab_id == old(self).next_tab_id,
            final(self).pinned_tabs@ == old(self).pinned_tabs@,
            final(self).favorites@ == old(self).favorites@,
    {
        let mut i: usize = 0;
        while i < self.tabs.len() && self.tabs[i].id != id
            invariant
                self.tabs@ == old(self).tabs@,
                has_tab(self.tabs@, id),
                i <= self.tabs@.len(),
                forall|k: int| 0 <= k < i ==> #[trigger] self.tabs@[k].id != id,
            decreases self.tabs@.len() - i,
        {
            i = i + 1;
        }
        if i == self.tabs.len() {
            proof {
                let k = choose|k: int| 0 <= k < self.tabs@.len() && #[trigger] self.tabs@[k].id == id;
                assert(self.tabs@[k].id != id);
            }
        }
        self.active_tab = i;
        self.focused_split = SplitSide::Primary;
        self.pending_tab_scroll_id = Some(id);
    }

    /// Activates the tab `delta` places after the active one, wrapping
    /// around at either end.
    pub fn activate_tab_relative(&mut self, delta: isize)
        requires
            old(self).wf(),
            isize::MIN <= old(self).active_tab + delta <= isize::MAX,
            old(self).tabs@.len() <= isize::MAX,
        ensures
            final(self).wf(),
            final(self).pending_tab_scroll_id == Some(final(self).tabs@[final(self).active_tab as int].id),
            final(self).tab_infos_dirty == old(self).tab_infos_dirty,
            final(self).pinned_tabs@ == old(self).pinned_tabs@,
            final(self).favorites@ == old(self).favorites@,
            final(self).item_clicked == old(self).item_clicked,
            final(self).tabs@ == old(self).tabs@,
            final(self).active_tab as int == (old(self).active_tab + delta) % (old(self).tabs@.len() as int),
            final(self).focused_split is Primary,
            final(self).next_tab_id == old(self).next_tab_id,
    {
        let len = self.tabs.len() as isize;
        let sum: isize = self.active_tab as isize + delta;
        let next: usize = match sum.checked_rem_euclid(len) {
            Some(r) => r as usize,
            None => 0,
        };
        assert(0 <= sum % len < len);
        let id = self.tabs[next].id;
        self.activate_tab(id);
        proof {
            assert(self.tabs@[next as int].id == id);
            if self.active_tab != next {
                assert(self.tabs@[self.active_tab as int].id == id);
            }
        }
    }

    /// Closes the tab with this id. The last remaining tab is never closed:
    /// it is reset to `start_path` (without a split) instead. After a close
    /// the active index stays where it was unless it ran past the end.
    pub fn close_tab(&mut self, id: u64, start_path: String) -> (outcome: CloseOutcome)
        requires
            old(self).wf(),
        ensures
            final(self).wf(),
            old(self).tabs@.len() == 1 || has_tab(old(self).tabs@, id) ==> final(self).tab_infos_dirty,
            final(self).item_clicked == old(self).item_clicked,
            final(self).next_tab_id == old(self).next_tab_id,
            final(self).pinned_tabs@ == old(self).pinned_tabs@,
            final(self).favorites@ == old(self).favorites@,
            old(self).tabs@.len() == 1 ==> outcome is ResetLastTab && final(self).tabs@.len() == 1
                && final(self).tabs@[0].id == old(self).tabs@[0].id && final(self).tabs@[0].path
                == start_path && final(self).tabs@[0].split is None && final(self).active_tab == 0
                && final(self).focused_split is Primary,
            old(self).tabs@.len() > 1 && !has_tab(old(self).tabs@, id) ==> outcome is NotFound
                && final(self).tabs@ == old(self).tabs@ && final(self).active_tab == old(self).active_tab,
            old(self).tabs@.len() > 1 && has_tab(old(self).tabs@, id) ==> outcome is Closed && (
            exists|k: int|
                0 <= k < old(self).tabs@.len() && old(self).tabs@[k].id == id && final(self).tabs@
                    == old(self).tabs@.remove(k)) && final(self).active_tab == (if old(self).active_tab < old(self).tabs@.len() - 1 {
                old(self).active_tab as int
            } else {
                old(self).tabs@.len() - 2
            }) && final(self).focused_split is Primary && final(self).pending_tab_scroll_id
                == Some(final(self).tabs@[final(self).active_tab as int].id),
            !has_tab(final(self).tabs@, id) || old(self).tabs@.len() == 1,
    {
        if self.tabs.len() > 1 {
            let mut i: usize = 0;
            while i < self.tabs.len() && self.tabs[i].id != id
                invariant
                    self.tabs@ == old(self).tabs@,
                    i <= self.tabs@.len(),
                    forall|k: int| 0 <= k < i ==> #[trigger] self.tabs@[k].id != id,
                decreases self.tabs@.len() - i,
            {
                i = i + 1;
            }
            if i == self.tabs.len() {
                assert(!has_tab(self.tabs@, id));
                return CloseOutcome::NotFound;
            }
            let ghost before = self.tabs@;
            let _closed = self.tabs.remove(i);
            if self.active_tab >= self.tabs.len() {
                self.active_tab = self.tabs.len() - 1;
            }
            self.focused_split = SplitSide::Primary;
            let a = self.active_tab;
            self.pending_tab_scroll_id = Some(self.tabs[a].id);
            self.tab_infos_dirty = true;
            proof {
                let after = self.tabs@;
                assert forall|k: int| 0 <= k < after.len() implies #[trigger] after[k].id
                    < self.next_tab_id by {
                    if k < i {
                        assert(after[k] == before[k]);
                    } else {
                        assert(after[k] == before[k + 1]);
                    }
                }
                assert forall|k: int, l: int| 0 <= k < l < after.len() implies #[trigger] after[k].id
                    != #[trigger] after[l].id by {
                    let kk = if k < i {
                        k
                    } else {
                        k + 1
                    };
                    let ll = if l < i {
                        l
                    } else {
                        l + 1
                    };
                    assert(after[k] == before[kk]);
                    assert(after[l] == before[ll]);
                }
                assert(!has_tab(after, id)) by {
                    if has_tab(after, id) {
                        let k = choose|k: int| 0 <= k < after.len() && #[trigger] after[k].id == id;
                        let kk = if k < i {
                            k
                        } else {
                            k + 1
                        };
                        assert(after[k] == before[kk]);
                        assert(before[i as int].id == id);
                    }
                }
            }
            CloseOutcome::Closed
        } else {
            let old_id = self.tabs[0].id;
            let sort_column = self.tabs[0].sort_column;
            let sort_ascending = self.tabs[0].sort_ascending;
            self.tabs.set(
                0,
                TabEntry { id: old_id, path: start_path, sort_column, sort_ascending, split: None },
            );
            self.active_tab = 0;
            self.focused_split = SplitSide::Primary;
            self.tab_infos_dirty = true;
            CloseOutcome::ResetLastTab
        }
    }

    /// Pins a tab path that is not pinned, or unpins every pin naming it.
    pub fn toggle_pin(&mut self, path: String)
        requires
            old(self).wf(),
        ensures
            final(self).wf(),
            final(self).next_tab_id == old(self).next_tab_id,
            final(self).focused_split == old(self).focused_split,
            final(self).pending_tab_scroll_id == old(self).pending_tab_scroll_id,
            final(self).item_clicked == old(self).item_clicked,
            final(self).pinned_tabs@ == toggled_pins(old(self).pinned_tabs@, path),
            final(self).tabs@ == old(self).tabs@,
            final(self).active_tab == old(self).active_tab,
            final(self).favorites@ == old(self).favorites@,
            final(self).tab_infos_dirty,
    {
        let n = self.pinned_tabs.len();
        let mut found = false;
        let mut i: usize = 0;
        while i < n
            invariant
                n == self.pinned_tabs@.len(),
                self.pinned_tabs@ == old(self).pinned_tabs@,
                i <= n,
                found == exists|k: int| 0 <= k < i && same_path(#[trigger] self.pinned_tabs@[k]@, path@),
            decreases n - i,
        {
            if paths_equal(self.pinned_tabs[i].as_str(), path.as_str()) {
                found = true;
            }
            i = i + 1;
        }
        if found {
            let kept = retain_other_paths(&self.pinned_tabs, path.as_str());
            self.pinned_tabs = kept;
        } else {
            self.pinned_tabs.push(path);
        }
        self.tab_infos_dirty = true;
    }

    /// Moves the favorite at `from` to land before position `to`
    /// (`reordered`); out-of-range `from` leaves the list unchanged.
    pub fn reorder_favorite(&mut self, from: usize, to: usize)
        requires
            old(self).wf(),
        ensures
            final(self).wf(),
            final(self).next_tab_id == old(self).next_tab_id,
            final(self).focused_split == old(self).focused_split,
            final(self).pending_tab_scroll_id == old(self).pending_tab_scroll_id,
            final(self).tab_infos_dirty == old(self).tab_infos_dirty,
            final(self).item_clicked == old(self).item_clicked,
            final(self).favorites@ == reordered(old(self).favorites@, from as int, to as int),
            final(self).tabs@ == old(self).tabs@,
            final(self).active_tab == old(self).active_tab,
            final(self).pinned_tabs@ == old(self).pinned_tabs@,
    {
        let len = self.favorites.len();
        if from < len {
            let item = self.favorites.remove(from);
            let mut target = to;
            if to > from {
                target = target - 1;
            }
            if target > self.favorites.len() {
                target = self.favorites.len();
            }
            self.favorites.insert(target, item);
        }
    }

    /// Adds the folder a view shows to the favorites, labelled by its file
    /// name, unless the view shows the drive list (`is_root`) or the recycle
    /// bin, or a favorite already has that path. Says whether it was added.
    pub fn add_favorite(&mut self, path: String, is_root: bool, is_recycle_bin: bool) -> (added: bool)
        requires
            old(self).wf(),
        ensures
            final(self).wf(),
            final(self).next_tab_id == old(self).next_tab_id,
            final(self).focused_split == old(self).focused_split,
            final(self).pending_tab_scroll_id == old(self).pending_tab_scroll_id,
            final(self).tab_infos_dirty == old(self).tab_infos_dirty,
            final(self).item_clicked == old(self).item_clicked,
            added == (!is_root && !is_recycle_bin && !is_favorite(old(self).favorites@, path@)),
            added ==> final(self).favorites@ == old(self).favorites@.push(
                FavoriteItem { path, label: final(self).favorites@.last().label },
            ) && final(self).favorites@.last().label@ == label_for(path@),
            !added ==> final(self).favorites@ == old(self).favorites@,
            final(self).tabs@ == old(self).tabs@,
            final(self).active_tab == old(self).active_tab,
            final(self).pinned_tabs@ == old(self).pinned_tabs@,
    {
        if is_root || is_recycle_bin {
            return false;
        }
        let n = self.favorites.len();
        let mut i: usize = 0;
        while i < n
            invariant
                n == self.favorites@.len(),
                self.favorites@ == old(self).favorites@,
                self.tabs@ == old(self).tabs@,
                self.active_tab == old(self).active_tab,
                self.next_tab_id == old(self).next_tab_id,
                self.pinned_tabs@ == old(self).pinned_tabs@,
                self.wf(),
                i <= n,
                forall|k: int| 0 <= k < i ==> !same_path(#[trigger] self.favorites@[k].path@, path@),
            decreases n - i,
        {
            if paths_equal(self.favorites[i].path.as_str(), path.as_str()) {
                return false;
            }
            i = i + 1;
        }
        let label = favorite_label(path.as_str());
        self.favorites.push(FavoriteItem { path, label });
        true
    }

    /// Removes every favorite with this path; a sidebar selection of that
    /// path is cleared too.
    pub fn remove_favorite(&mut self, path: &str)
        requires
            old(self).wf(),
        ensures
            final(self).wf(),
            final(self).next_tab_id == old(self).next_tab_id,
            final(self).focused_split == old(self).focused_split,
            final(self).pending_tab_scroll_id == old(self).pending_tab_scroll_id,
            final(self).tab_infos_dirty == old(self).tab_infos_dirty,
            final(self).favorites@ == favorites_without(old(self).favorites@, path@),
            (old(self).item_clicked matches Some(c) && same_path(c@, path@)) ==> final(self).item_clicked is None,
            !(old(self).item_clicked matches Some(c) && same_path(c@, path@)) ==> final(self).item_clicked == old(self).item_clicked,
            final(self).tabs@ == old(self).tabs@,
            final(self).active_tab == old(self).active_tab,
            final(self).pinned_tabs@ == old(self).pinned_tabs@,
    {
        let kept = retain_other_favorites(&self.favorites, path);
        self.favorites = kept;
        let clear = match &self.item_clicked {
            Some(c) => paths_equal(c.as_str(), path),
            None => false,
        };
        if clear {
            self.item_clicked = None;
        }
    }
}

/// The pins that do not name the path `p`, in order.
pub(crate) fn retain_other_paths(pins: &Vec<String>, p: &str) -> (r: Vec<String>)
    ensures
        r@ == without_path(pins@, p@),
{
    let mut r: Vec<String> = Vec::new();
    let mut i: usize = 0;
    assert(pins@.take(0) =~= Seq::<String>::empty());
    while i < pins.len()
        invariant
            i <= pins@.len(),
            r@ == without_path(pins@.take(i as int), p@),
        decreases pins@.len() - i,
    {
        proof {
            assert(pins@.take(i + 1).drop_last() =~= pins@.take(i as int));
            assert(pins@.take(i + 1).last() == pins@[i as int]);
        }
        if !paths_equal(pins[i].as_str(), p) {
            r.push(pins[i].clone());
        }
        i = i + 1;
    }
    assert(pins@.take(pins@.len() as int) =~= pins@);
    r
}

/// The favorites whose path is not `p`, in order.
fn retain_other_favorites(favs: &Vec<FavoriteItem>, p: &str) -> (r: Vec<FavoriteItem>)
    ensures
        r@ == favorites_without(favs@, p@),
{
    let mut r: Vec<FavoriteItem> = Vec::new();
    let mut i: usize = 0;
    assert(favs@.take(0) =~= Seq::<FavoriteItem>::empty());
    while i < favs.len()
        invariant
            i <= favs@.len(),
            r@ == favorites_without(favs@.take(i as int), p@),
        decreases favs@.len() - i,
    {
        proof {
            assert(favs@.take(i + 1).drop_last() =~= favs@.take(i as int));
            assert(favs@.take(i + 1).last() == favs@[i as int]);
        }
        if !paths_equal(favs[i].path.as_str(), p) {
            r.push(favs[i].duplicate());
        }
        i = i + 1;
    }
    assert(favs@.take(favs@.len() as int) =~= favs@);
    r
}

/// Removing the pins of a path that no pin names changes nothing.
proof fn lemma_without_unpinned(pins: Seq<String>, p: Seq<char>)
    requires
        !contains_path(pins, p),
    ensures
        without_path(pins, p) == pins,
    decreases pins.len(),
{
    if pins.len() > 0 {
        let init = pins.drop_last();
        assert(!contains_path(init, p)) by {
            if contains_path(init, p) {
                let k = choose|k: int| 0 <= k < init.len() && same_path(#[trigger] init[k]@, p);
                assert(pins[k] == init[k]);
            }
        }
        lemma_without_unpinned(init, p);
        assert(!same_path(pins.last()@, p)) by {
            if same_path(pins.last()@, p) {
                assert(same_path(pins[pins.len() - 1]@, p));
            }
        }
        assert(init.push(pins.last()) =~= pins);
    }
}

/// Toggling the pin of a path that is not pinned, then toggling it again,
/// gives back the original pins.
pub proof fn lemma_toggle_pin_twice_restores(pins: Seq<String>, p: String)
    requires
        !contains_path(pins, p@),
    ensures
        toggled_pins(toggled_pins(pins, p), p) == pins,
{
    let once = pins.push(p);
    assert(toggled_pins(pins, p) == once);
    assert(same_path(once[pins.len() as int]@, p@));
    assert(contains_path(once, p@));
    assert(once.drop_last() =~= pins);
    lemma_without_unpinned(pins, p@);
}

/// After toggling, a path is pinned exactly when it was not pinned before.
pub proof fn lemma_toggle_flips_pinned(pins: Seq<String>, p: String)
    ensures
        contains_path(toggled_pins(pins, p), p@) == !contains_path(pins, p@),
{
    if contains_path(pins, p@) {
        lemma_without_removes(pins, p@);
    } else {
        let once = pins.push(p);
        assert(same_path(once[pins.len() as int]@, p@));
    }
}

/// No pin left by `without_path` names the removed path.
proof fn lemma_without_removes(pins: Seq<String>, p: Seq<char>)
    ensures
        !contains_path(without_path(pins, p), p),
    decreases pins.len(),
{
    if pins.len() > 0 {
        lemma_without_removes(pins.drop_last(), p);
        let rest = without_path(pins.drop_last(), p);
        if !same_path(pins.last()@, p) {
            let r = rest.push(pins.last());
            assert(!contains_path(r, p)) by {
                if contains_path(r, p) {
                    let k = choose|k: int| 0 <= k < r.len() && same_path(#[trigger] r[k]@, p);
                    if k < rest.len() {
                        assert(r[k] == rest[k]);
                    }
                }
            }
        }
    }
}

proof fn lemma_insert_multiset<A>(s: Seq<A>, i: int, x: A)
    requires
        0 <= i <= s.len(),
    ensures
        s.insert(i, x).to_multiset() =~= s.to_multiset().insert(x),
{
    broadcast use vstd::seq_lib::group_to_multiset_ensures;

    let t = s.insert(i, x);
    assert(t.remove(i) =~= s);
    assert(t[i] == x);
    assert(t.to_multiset().remove(x) == s.to_multiset());
    assert(t.contains(x));
    assert(t.to_multiset().count(x) > 0);
}

/// Dragging a favorite to a new place keeps the same favorites (as a
/// multiset) and puts the dragged one at its target position.
pub proof fn lemma_reorder_is_permutation(favs: Seq<FavoriteItem>, from: int, to: int)
    requires
        0 <= from < favs.len(),
        0 <= to,
    ensures
        reordered(favs, from, to).to_multiset() =~= favs.to_multiset(),
        reordered(favs, from, to).len() == favs.len(),
        reordered(favs, from, to)[reorder_target(from, to, favs.len() as int)] == favs[from],
{
    broadcast use vstd::seq_lib::group_to_multiset_ensures;

    let r = favs.remove(from);
    let t = reorder_target(from, to, favs.len() as int);
    lemma_insert_multiset(r, t, favs[from]);
    assert(r.to_multiset() == favs.to_multiset().remove(favs[from]));
    assert(favs.contains(favs[from]));
    assert(favs.to_multiset().count(favs[from]) > 0);
}

/// A favorite just added is found when the same path is added again, so
/// adding twice is the same as adding once.
pub proof fn lemma_added_favorite_found(favs: Seq<FavoriteItem>, path: String, label: String)
    ensures
        is_favorite(favs.push(FavoriteItem { path, label }), path@),
{
    let f = favs.push(FavoriteItem { path, label });
    assert(same_path(f[favs.len() as int].path@, path@));
}

/// The index `delta` places after `a` in a ring of `n` positions.
pub open spec fn ring_step(a: int, delta: int, n: int) -> int {
    (a + delta) % n
}

/// Stepping forward and then back by the same amount returns to the start
/// tab.
pub proof fn lemma_relative_steps_cancel(a: int, delta: int, n: int)
    requires
        n > 0,
        0 <= a < n,
    ensures
        ring_step(ring_step(a, delta, n), -delta, n) == a,
{
    let b = (a + delta) % n;
    let q = (a + delta) / n;
    vstd::arithmetic::div_mod::lemma_fundamental_div_mod(a + delta, n);
    vstd::arithmetic::div_mod::lemma_mod_multiples_vanish(-q, a, n);
    vstd::arithmetic::div_mod::lemma_small_mod(a as nat, n as nat);
    assert(n * (-q) == -(n * q)) by (nonlinear_arith);
    assert(b - delta == n * (-q) + a);
}

/// After a path is removed from a list of paths (a tab unpinned, an entry
/// deselected, a folder size finished), no entry of the list is the same path
/// as it.
pub proof fn lemma_removed_path_absent(sel: Seq<String>, p: Seq<char>)
    ensures
        !contains_path(without_path(sel, p), p),
    decreases sel.len(),
{
    if sel.len() > 0 {
        lemma_removed_path_absent(sel.drop_last(), p);
        let rest = without_path(sel.drop_last(), p);
        if !same_path(sel.last()@, p) {
            let r = rest.push(sel.last());
            assert forall|k: int| 0 <= k < r.len() implies !same_path(#[trigger] r[k]@, p) by {
                if k < rest.len() {
                    assert(r[k] == rest[k]);
                }
            }
        }
    }
}

} // verus!
