//! The actions the item viewer, the settings window and the theme customizer
//! report, and the decisions taken on them before any file is touched.
use vstd::prelude::*;

use crate::config::{other_theme, ItemViewerHeaderColumn, ThemeMode};
use crate::sorting::{FileItem, SortColumn};
use crate::workspace::{contains_path, paths_equal, same_path};

verus! {

/// What the theme customizer asks for.
#[derive(Clone, Copy, Debug, PartialEq, Eq, Structural)]
pub enum ThemeCustomizerAction {
    ThemeUpdated(ThemeMode),
    ResetToDefaults(ThemeMode),
    ExportTheme(ThemeMode),
    ImportTheme(ThemeMode),
    OpenThemeFile,
}

/// What the settings window asks for.
#[derive(Clone, Copy, Debug, PartialEq, Eq, Structural)]
pub enum SettingsAction {
    ResetToDefaults,
    ResetFavourites,
    ApplySettings,
    OpenSettingsFile,
}

/// An action from an entry's context menu.
#[derive(Debug)]
pub enum ItemViewerContextAction {
    Cut(Vec<String>),
    Copy(Vec<String>),
    CopyPath(Vec<String>),
    Paste,
    Restore(Vec<String>),
    AddTag(Vec<String>),
    RemoveTag(Vec<String>),
    RenameRequest(String, String),
    RenameCancel,
    Delete(Vec<String>),
    Properties(Vec<String>),
}

/// An action from the item viewer.
#[derive(Debug)]
pub enum ItemViewerAction {
    Sort(SortColumn),
    ToggleColumnVisibility(ItemViewerHeaderColumn),
    FitColumn(ItemViewerHeaderColumn),
    FitAllColumns,
    CreateFolder,
    CreateFile,
    RefreshCurrentDirectory,
    OpenTerminal,
    MoveColumnLeft(ItemViewerHeaderColumn),
    MoveColumnRight(ItemViewerHeaderColumn),
    MoveColumnToStart(ItemViewerHeaderColumn),
    MoveColumnToEnd(ItemViewerHeaderColumn),
    Select(String),
    Deselect(String),
    SelectAll,
    DeselectAll,
    RangeSelect(Vec<String>),
    Open(String),
    OpenWithDefault(Vec<String>),
    OpenInNewTab(String),
    OpenInSplitView(String),
    Context(ItemViewerContextAction),
    StartEdit(String),
    ReplaceSelection(String),
    FilesDropped(Vec<String>),
    MoveItems { sources: Vec<String>, target_dir: String },
    ColumnSizesChanged,
}

/// The actions the recycle-bin view ignores: everything that would create,
/// open, edit, copy, paste, tag, rename or move entries there.
pub open spec fn blocked_in_recycle_bin(action: ItemViewerAction) -> bool {
    match action {
        ItemViewerAction::CreateFolder | ItemViewerAction::CreateFile
        | ItemViewerAction::OpenTerminal | ItemViewerAction::Open(_)
        | ItemViewerAction::OpenWithDefault(_) | ItemViewerAction::OpenInNewTab(_)
        | ItemViewerAction::OpenInSplitView(_) | ItemViewerAction::StartEdit(_)
        | ItemViewerAction::FilesDropped(_) | ItemViewerAction::MoveItems { .. } => true,
        ItemViewerAction::Context(c) => match c {
            ItemViewerContextAction::Copy(_) | ItemViewerContextAction::CopyPath(_)
            | ItemViewerContextAction::Paste | ItemViewerContextAction::AddTag(_)
            | ItemViewerContextAction::RemoveTag(_) | ItemViewerContextAction::RenameRequest(_, _)
            | ItemViewerContextAction::RenameCancel => true,
            _ => false,
        },
        _ => false,
    }
}

/// Whether an action is carried out in the current view: in the recycle bin
/// the blocked actions are ignored, elsewhere every action is.
pub fn action_allowed(action: &ItemViewerAction, in_recycle_bin: bool) -> (b: bool)
    ensures
        b == !(in_recycle_bin && blocked_in_recycle_bin(*action)),
{
    if !in_recycle_bin {
        return true;
    }
    let blocked = match action {
        ItemViewerAction::CreateFolder | ItemViewerAction::CreateFile
        | ItemViewerAction::OpenTerminal | ItemViewerAction::Open(_)
        | ItemViewerAction::OpenWithDefault(_) | ItemViewerAction::OpenInNewTab(_)
        | ItemViewerAction::OpenInSplitView(_) | ItemViewerAction::StartEdit(_)
        | ItemViewerAction::FilesDropped(_) | ItemViewerAction::MoveItems { .. } => true,
        ItemViewerAction::Context(c) => match c {
            ItemViewerContextAction::Copy(_) | ItemViewerContextAction::CopyPath(_)
            | ItemViewerContextAction::Paste | ItemViewerContextAction::AddTag(_)
            | ItemViewerContextAction::RemoveTag(_) | ItemViewerContextAction::RenameRequest(_, _)
            | ItemViewerContextAction::RenameCancel => true,
            _ => false,
        },
        _ => false,
    };
    !blocked
}

/// The focus after a range selection that started at `anchor`: the end of
/// the range farthest from the anchor. `first` and `last` are the positions
/// of the range's first and last entries (a missing one counts as the
/// anchor); without an anchor, or for an empty range, the focus is unchanged
/// (None).
pub open spec fn range_focus(
    anchor: Option<usize>,
    range_len: nat,
    first: Option<usize>,
    last: Option<usize>,
) -> Option<usize> {
    match anchor {
        None => None,
        Some(a) => if range_len == 0 {
            None
        } else {
            let f = match first {
                Some(x) => x,
                None => a,
            };
            let l = match last {
                Some(x) => x,
                None => a,
            };
            if a <= f {
                Some(l)
            } else {
                Some(f)
            }
        },
    }
}

/// Computes `range_focus`.
pub fn range_select_focus(
    anchor: Option<usize>,
    range_len: usize,
    first: Option<usize>,
    last: Option<usize>,
) -> (r: Option<usize>)
    ensures
        r == range_focus(anchor, range_len as nat, first, last),
{
    match anchor {
        None => None,
        Some(a) => {
            if range_len == 0 {
                None
            } else {
                let f = match first {
                    Some(x) => x,
                    None => a,
                };
                let l = match last {
                    Some(x) => x,
                    None => a,
                };
                if a <= f {
                    Some(l)
                } else {
                    Some(f)
                }
            }
        },
    }
}

/// The position of the first entry whose path is the same path as `path`.
pub open spec fn first_with_path(files: Seq<FileItem>, path: Seq<char>) -> Option<usize> {
    if exists|k: int| 0 <= k < files.len() && same_path(files[k].path@, path) {
        let k = choose|k: int|
            0 <= k < files.len() && same_path(files[k].path@, path) && forall|m: int|
                0 <= m < k ==> !same_path(files[m].path@, path);
        Some(k as usize)
    } else {
        None
    }
}

/// Finds the first entry whose path is the same path as `path`.
pub fn position_of_path(files: &Vec<FileItem>, path: &str) -> (r: Option<usize>)
    ensures
        match r {
            Some(k) => k < files@.len() && same_path(files@[k as int].path@, path@) && forall|m: int|
                0 <= m < k ==> !same_path(files@[m].path@, path@),
            None => forall|m: int| 0 <= m < files@.len() ==> !same_path(files@[m].path@, path@),
        },
        r == first_with_path(files@, path@),
{
    let mut i: usize = 0;
    while i < files.len()
        invariant
            i <= files@.len(),
            forall|m: int| 0 <= m < i ==> !same_path(files@[m].path@, path@),
        decreases files@.len() - i,
    {
        if paths_equal(files[i].path.as_str(), path) {
            proof {
                let c = choose|j: int|
                    0 <= j < files@.len() && same_path(files@[j].path@, path@) && forall|m: int|
                        0 <= m < j ==> !same_path(files@[m].path@, path@);
                lemma_first_unique(files@, path@, i as int, c);
            }
            return Some(i);
        }
        i = i + 1;
    }
    None
}

/// The recycle-bin item ids of the given paths, for restoring them: for each
/// path, in order, the id of the first listed entry with that path, skipping
/// paths that are not listed or whose entry has no id.
pub open spec fn restore_ids(files: Seq<FileItem>, paths: Seq<String>) -> Seq<Seq<u8>>
    decreases paths.len(),
{
    if paths.len() == 0 {
        Seq::empty()
    } else {
        let rest = restore_ids(files, paths.drop_last());
        let p = paths.last()@;
        if exists|k: int| 0 <= k < files.len() && same_path(files[k].path@, p) {
            let k = choose|k: int|
                0 <= k < files.len() && same_path(files[k].path@, p) && forall|m: int|
                    0 <= m < k ==> !same_path(files[m].path@, p);
            match files[k].recycle_bin_pidl {
                Some(id) => rest.push(id@),
                None => rest,
            }
        } else {
            rest
        }
    }
}

proof fn lemma_first_unique(files: Seq<FileItem>, p: Seq<char>, k: int, j: int)
    requires
        0 <= k < files.len() && same_path(files[k].path@, p) && forall|m: int|
            0 <= m < k ==> !same_path(files[m].path@, p),
        0 <= j < files.len() && same_path(files[j].path@, p) && forall|m: int|
            0 <= m < j ==> !same_path(files[m].path@, p),
    ensures
        k == j,
{
    if k < j {
        assert(!same_path(files[k].path@, p));
    } else if j < k {
        assert(!same_path(files[j].path@, p));
    }
}

fn copy_bytes(v: &Vec<u8>) -> (r: Vec<u8>)
    ensures
        r@ == v@,
{
    let mut r: Vec<u8> = Vec::new();
    let mut i: usize = 0;
    while i < v.len()
        invariant
            i <= v@.len(),
            r@ == v@.take(i as int),
        decreases v@.len() - i,
    {
        r.push(v[i]);
        i = i + 1;
        assert(r@ =~= v@.take(i as int));
    }
    assert(v@.take(v@.len() as int) =~= v@);
    r
}

/// Collects the recycle-bin item ids of the given paths (`restore_ids`).
pub fn recycle_ids_for(files: &Vec<FileItem>, paths: &Vec<String>) -> (r: Vec<Vec<u8>>)
    ensures
        r@.map_values(|v: Vec<u8>| v@) == restore_ids(files@, paths@),
{
    let mut r: Vec<Vec<u8>> = Vec::new();
    let mut i: usize = 0;
    assert(paths@.take(0) =~= Seq::<String>::empty());
    assert(r@.map_values(|v: Vec<u8>| v@) =~= Seq::<Seq<u8>>::empty());
    while i < paths.len()
        invariant
            i <= paths@.len(),
            r@.map_values(|v: Vec<u8>| v@) == restore_ids(files@, paths@.take(i as int)),
        decreases paths@.len() - i,
    {
        let ghost prefix = paths@.take(i + 1);
        proof {
            assert(prefix.drop_last() =~= paths@.take(i as int));
            assert(prefix.last() == paths@[i as int]);
        }
        let ghost before = r@;
        match position_of_path(files, paths[i].as_str()) {
            Some(k) => {
                proof {
                    let p = paths@[i as int]@;
                    assert(exists|j: int| 0 <= j < files@.len() && same_path(files@[j].path@, p));
                    let c = choose|j: int|
                        0 <= j < files@.len() && same_path(files@[j].path@, p) && forall|m: int|
                            0 <= m < j ==> !same_path(files@[m].path@, p);
                    lemma_first_unique(files@, p, k as int, c);
                }
                match &files[k].recycle_bin_pidl {
                    Some(id) => {
                        let c = copy_bytes(id);
                        r.push(c);
                        assert(r@.map_values(|v: Vec<u8>| v@) =~= before.map_values(
                            |v: Vec<u8>| v@,
                        ).push(id@));
                    },
                    None => {},
                }
            },
            None => {},
        }
        i = i + 1;
    }
    assert(paths@.take(paths@.len() as int) =~= paths@);
    r
}

/// Texts joined into lines separated by CR LF.
pub open spec fn crlf_lines(ts: Seq<Seq<char>>) -> Seq<char>
    decreases ts.len(),
{
    if ts.len() == 0 {
        Seq::empty()
    } else if ts.len() == 1 {
        ts[0]
    } else {
        crlf_lines(ts.drop_last()) + "\r\n"@ + ts.last()
    }
}

/// The text put on the clipboard by "copy path": the paths, one per line,
/// separated by CR LF.
pub fn copied_paths_text(paths: &Vec<String>) -> (r: String)
    ensures
        r@ == crlf_lines(paths@.map_values(|p: String| p@)),
{
    let mut r = String::new();
    let mut i: usize = 0;
    while i < paths.len()
        invariant
            i <= paths@.len(),
            r@ == crlf_lines(paths@.take(i as int).map_values(|p: String| p@)),
        decreases paths@.len() - i,
    {
        let ghost prev = paths@.take(i as int).map_values(|p: String| p@);
        let ghost next = paths@.take(i + 1).map_values(|p: String| p@);
        proof {
            assert(next.drop_last() =~= prev);
            assert(next.last() == paths@[i as int]@);
        }
        if i > 0 {
            r.append("\r\n");
        }
        r.append(paths[i].as_str());
        i = i + 1;
    }
    assert(paths@.take(paths@.len() as int) =~= paths@);
    r
}

/// The listing after a folder's size is reported: the first entry with that
/// path gets the size.
pub open spec fn with_folder_size(files: Seq<FileItem>, p: Seq<char>, size: u64) -> Seq<FileItem> {
    match first_with_path(files, p) {
        Some(k) => files.update(k as int, FileItem { file_size: Some(size), ..files[k as int] }),
        None => files,
    }
}

/// Records the size computed for a folder: the first listed entry with that
/// path gets it. Says whether an entry was updated.
pub fn apply_folder_size(files: &mut Vec<FileItem>, path: &str, size: u64) -> (updated: bool)
    ensures
        updated == first_with_path(old(files)@, path@) is Some,
        final(files)@ == with_folder_size(old(files)@, path@, size),
{
    match position_of_path(files, path) {
        Some(k) => {
            proof {
                let c = choose|j: int|
                    0 <= j < old(files)@.len() && same_path(old(files)@[j].path@, path@) && forall|m: int|
                        0 <= m < j ==> !same_path(old(files)@[m].path@, path@);
                lemma_first_unique(old(files)@, path@, k as int, c);
            }
            let mut item = files.remove(k);
            item.file_size = Some(size);
            files.insert(k, item);
            assert(files@ =~= old(files)@.update(
                k as int,
                FileItem { file_size: Some(size), ..old(files)@[k as int] },
            ));
            true
        },
        None => false,
    }
}

/// The theme customizer window: whether it is open, which mode's palette it
/// edits, and the two palettes it holds.
pub struct ThemeCustomizer<P> {
    pub open: bool,
    pub selected_mode: ThemeMode,
    pub light_palette: P,
    pub dark_palette: P,
}

impl<P> ThemeCustomizer<P> {
    /// A closed customizer that edits the dark palette.
    pub fn new(light_palette: P, dark_palette: P) -> (c: Self)
        ensures
            !c.open,
            c.selected_mode == ThemeMode::Dark,
            c.light_palette == light_palette,
            c.dark_palette == dark_palette,
    {
        ThemeCustomizer { open: false, selected_mode: ThemeMode::Dark, light_palette, dark_palette }
    }

    /// The palette of a mode, as held by the customizer.
    pub open spec fn palette_of(&self, mode: ThemeMode) -> P {
        match mode {
            ThemeMode::Dark => self.dark_palette,
            ThemeMode::Light => self.light_palette,
        }
    }

    /// The palette being edited: that of the selected mode.
    pub fn editing_palette(&self) -> (p: &P)
        ensures
            *p == self.palette_of(self.selected_mode),
    {
        match self.selected_mode {
            ThemeMode::Dark => &self.dark_palette,
            ThemeMode::Light => &self.light_palette,
        }
    }

    /// The palette of a mode.
    pub fn palette_for(&self, mode: ThemeMode) -> (p: &P)
        ensures
            *p == self.palette_of(mode),
    {
        match mode {
            ThemeMode::Dark => &self.dark_palette,
            ThemeMode::Light => &self.light_palette,
        }
    }

    /// Replaces the palette of one mode (a reset or an import) and leaves the
    /// other palette, the selected mode and the open flag as they were.
    pub fn replace_palette(&mut self, mode: ThemeMode, palette: P)
        ensures
            final(self).palette_of(mode) == palette,
            final(self).palette_of(other_theme(mode)) == old(self).palette_of(other_theme(mode)),
            final(self).selected_mode == old(self).selected_mode,
            final(self).open == old(self).open,
    {
        match mode {
            ThemeMode::Dark => self.dark_palette = palette,
            ThemeMode::Light => self.light_palette = palette,
        }
    }
}

/// The mode whose palette an action of the customizer changes: updates,
/// resets and imports change that of their mode; exports and opening the
/// theme file change none.
pub open spec fn changed_theme_mode(action: ThemeCustomizerAction) -> Option<ThemeMode> {
    match action {
        ThemeCustomizerAction::ThemeUpdated(m) => Some(m),
        ThemeCustomizerAction::ResetToDefaults(m) => Some(m),
        ThemeCustomizerAction::ImportTheme(m) => Some(m),
        ThemeCustomizerAction::ExportTheme(_) => None,
        ThemeCustomizerAction::OpenThemeFile => None,
    }
}

/// Computes `changed_theme_mode`.
pub fn palette_changed_by(action: ThemeCustomizerAction) -> (r: Option<ThemeMode>)
    ensures
        r == changed_theme_mode(action),
{
    match action {
        ThemeCustomizerAction::ThemeUpdated(m) => Some(m),
        ThemeCustomizerAction::ResetToDefaults(m) => Some(m),
        ThemeCustomizerAction::ImportTheme(m) => Some(m),
        ThemeCustomizerAction::ExportTheme(_) => None,
        ThemeCustomizerAction::OpenThemeFile => None,
    }
}

/// Whether an action of the customizer requires the current theme to be
/// applied again: it does when it changed the palette of the mode in use.
pub fn refreshes_current_theme(action: ThemeCustomizerAction, current: ThemeMode) -> (b: bool)
    ensures
        b == (changed_theme_mode(action) == Some(current)),
{
    match palette_changed_by(action) {
        Some(m) => m == current,
        None => false,
    }
}

/// The file name offered when a palette is exported.
pub fn theme_export_file_name(mode: ThemeMode) -> (s: &'static str)
    ensures
        mode == ThemeMode::Dark ==> s@ == "eden_theme_dark.json"@,
        mode == ThemeMode::Light ==> s@ == "eden_theme_light.json"@,
{
    match mode {
        ThemeMode::Dark => "eden_theme_dark.json",
        ThemeMode::Light => "eden_theme_light.json",
    }
}

/// What the item viewer knows of the clipboard: the files on it, whether
/// they were cut, and whether there are any.
#[derive(Debug)]
pub struct ClipboardState {
    pub paths: Vec<String>,
    pub is_cut: bool,
    pub has_files: bool,
}

impl ClipboardState {
    /// Nothing on the clipboard.
    pub fn new() -> (c: ClipboardState)
        ensures
            c.paths@.len() == 0,
            !c.is_cut,
            !c.has_files,
    {
        ClipboardState { paths: Vec::new(), is_cut: false, has_files: false }
    }

    /// Takes in what the clipboard holds after it changed.
    pub fn refresh(&mut self, paths: Vec<String>, is_cut: bool)
        ensures
            final(self).paths@ == paths@,
            final(self).is_cut == is_cut,
            final(self).has_files == (paths@.len() > 0),
    {
        self.has_files = paths.len() > 0;
        self.paths = paths;
        self.is_cut = is_cut;
    }

    /// Whether a path is among the files on the clipboard (shown dimmed when
    /// they were cut).
    pub fn holds(&self, path: &str) -> (b: bool)
        ensures
            b == contains_path(self.paths@, path@),
    {
        path_listed(&self.paths, path)
    }
}

/// Whether some path of the list is the same path as `p`.
fn path_listed(paths: &Vec<String>, p: &str) -> (b: bool)
    ensures
        b == contains_path(paths@, p@),
{
    let mut i: usize = 0;
    while i < paths.len()
        invariant
            i <= paths@.len(),
            forall|m: int| 0 <= m < i ==> !same_path(#[trigger] paths@[m]@, p@),
        decreases paths@.len() - i,
    {
        if paths_equal(paths[i].as_str(), p) {
            return true;
        }
        i = i + 1;
    }
    false
}

/// The entries of `after` that are not the same path as any of `before`, in
/// order.
pub open spec fn new_entries(after: Seq<String>, before: Seq<String>) -> Seq<String>
    decreases after.len(),
{
    if after.len() == 0 {
        after
    } else {
        let rest = new_entries(after.drop_last(), before);
        if contains_path(before, after.last()@) {
            rest
        } else {
            rest.push(after.last())
        }
    }
}

/// What is selected after a paste: the entries of the target folder that
/// were not there before; when there are none, the target paths of the
/// pasted sources that exist.
pub open spec fn pasted_selection_of(
    after: Seq<String>,
    before: Seq<String>,
    existing_targets: Seq<String>,
) -> Seq<String> {
    let d = new_entries(after, before);
    if d.len() > 0 {
        d
    } else {
        existing_targets
    }
}

/// Chooses what to select after a paste (`pasted_selection_of`) from the
/// entries of the target folder after and before it, and the target paths of
/// the pasted sources that exist. The caller reads the folder and the files.
pub fn pasted_selection(
    after: &Vec<String>,
    before: &Vec<String>,
    existing_targets: Vec<String>,
) -> (r: Vec<String>)
    ensures
        r@ == pasted_selection_of(after@, before@, existing_targets@),
{
    let mut fresh: Vec<String> = Vec::new();
    let mut i: usize = 0;
    while i < after.len()
        invariant
            i <= after@.len(),
            fresh@ == new_entries(after@.take(i as int), before@),
        decreases after@.len() - i,
    {
        proof {
            assert(after@.take(i + 1).drop_last() =~= after@.take(i as int));
        }
        if !path_listed(before, after[i].as_str()) {
            fresh.push(after[i].clone());
        }
        i = i + 1;
    }
    assert(after@.take(after@.len() as int) =~= after@);
    if fresh.len() > 0 {
        fresh
    } else {
        existing_targets
    }
}

} // verus!
