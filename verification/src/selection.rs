//! The selection of a view: which entries are selected, where a range
//! selection is anchored, and which row has the focus.
use vstd::prelude::*;

use crate::actions::{first_with_path, position_of_path};
use crate::sorting::FileItem;
use crate::workspace::{contains_path, paths_equal, retain_other_paths, same_path, without_path};

verus! {

/// The selected paths of a view, each at most once, with the row a range
/// selection starts from and the focused row.
#[derive(Debug)]
pub struct Selection {
    pub selected: Vec<String>,
    pub anchor: Option<usize>,
    pub focus: Option<usize>,
}

/// The selected paths after selecting `p`: unchanged when it is already
/// selected, with `p` added otherwise.
pub open spec fn with_path(sel: Seq<String>, p: String) -> Seq<String> {
    if contains_path(sel, p@) {
        sel
    } else {
        sel.push(p)
    }
}

/// The selected paths after selecting each of `ps`, in order.
pub open spec fn with_paths(sel: Seq<String>, ps: Seq<String>) -> Seq<String>
    decreases ps.len(),
{
    if ps.len() == 0 {
        sel
    } else {
        with_path(with_paths(sel, ps.drop_last()), ps.last())
    }
}

/// The row at which the entry with path `p` is shown in a filtered view:
/// the first position of `rows` (indices into `files`) whose entry has that
/// path.
pub open spec fn row_of(files: Seq<FileItem>, rows: Seq<usize>, p: Seq<char>) -> Option<usize> {
    if exists|j: int| 0 <= j < rows.len() && same_path(files[rows[j] as int].path@, p) {
        let j = choose|j: int|
            0 <= j < rows.len() && same_path(files[rows[j] as int].path@, p) && forall|m: int|
                0 <= m < j ==> !same_path(files[rows[m] as int].path@, p);
        Some(j as usize)
    } else {
        None
    }
}

/// Whether every row is a valid index into the listing.
pub open spec fn rows_valid(files: Seq<FileItem>, rows: Seq<usize>) -> bool {
    forall|j: int| 0 <= j < rows.len() ==> #[trigger] rows[j] < files.len()
}

proof fn lemma_first_row_unique(files: Seq<FileItem>, rows: Seq<usize>, p: Seq<char>, j: int, c: int)
    requires
        0 <= j < rows.len() && same_path(files[rows[j] as int].path@, p) && forall|m: int|
            0 <= m < j ==> !same_path(files[rows[m] as int].path@, p),
        0 <= c < rows.len() && same_path(files[rows[c] as int].path@, p) && forall|m: int|
            0 <= m < c ==> !same_path(files[rows[m] as int].path@, p),
    ensures
        j == c,
{
    if j < c {
        assert(!same_path(files[rows[j] as int].path@, p));
    } else if c < j {
        assert(!same_path(files[rows[c] as int].path@, p));
    }
}

/// The position a selected path takes as anchor and focus: its row in the
/// filtered view, or else its first position in the listing.
pub open spec fn select_spot(files: Seq<FileItem>, rows: Seq<usize>, p: Seq<char>) -> Option<usize> {
    match row_of(files, rows, p) {
        Some(j) => Some(j),
        None => first_with_path(files, p),
    }
}

/// Where a path is shown: its row in a filtered view, its first position in
/// the listing otherwise.
pub open spec fn view_spot(files: Seq<FileItem>, rows: Seq<usize>, filtered: bool, p: Seq<char>) -> Option<
    usize,
> {
    if filtered {
        row_of(files, rows, p)
    } else {
        first_with_path(files, p)
    }
}

/// Finds the row of a path in a filtered view (`row_of`).
pub fn find_row(files: &Vec<FileItem>, rows: &Vec<usize>, path: &str) -> (r: Option<usize>)
    requires
        rows_valid(files@, rows@),
    ensures
        r == row_of(files@, rows@, path@),
        r matches Some(j) ==> j < rows@.len(),
{
    let mut i: usize = 0;
    while i < rows.len()
        invariant
            rows_valid(files@, rows@),
            i <= rows@.len(),
            forall|m: int| 0 <= m < i ==> !same_path(files@[rows@[m] as int].path@, path@),
        decreases rows@.len() - i,
    {
        let k = rows[i];
        if paths_equal(files[k].path.as_str(), path) {
            proof {
                let c = choose|j: int|
                    0 <= j < rows@.len() && same_path(files@[rows@[j] as int].path@, path@)
                        && forall|m: int|
                        0 <= m < j ==> !same_path(files@[rows@[m] as int].path@, path@);
                lemma_first_row_unique(files@, rows@, path@, i as int, c);
            }
            return Some(i);
        }
        i = i + 1;
    }
    None
}

/// The position a selected path gets as anchor and focus: its row in the
/// filtered view, or else its position in the whole listing.
pub fn select_position(files: &Vec<FileItem>, rows: &Vec<usize>, path: &str) -> (r: Option<usize>)
    requires
        rows_valid(files@, rows@),
    ensures
        r == select_spot(files@, rows@, path@),
        row_of(files@, rows@, path@) is Some ==> r == row_of(files@, rows@, path@),
        row_of(files@, rows@, path@) is None ==> match r {
            Some(k) => k < files@.len() && same_path(files@[k as int].path@, path@) && forall|m: int|
                0 <= m < k ==> !same_path(files@[m].path@, path@),
            None => forall|m: int| 0 <= m < files@.len() ==> !same_path(files@[m].path@, path@),
        },
{
    match find_row(files, rows, path) {
        Some(j) => Some(j),
        None => position_of_path(files, path),
    }
}

/// Whether a view shows a filtered subset of its listing: a filter with a
/// query is active, or the rows shown are not the whole listing.
pub fn view_is_filtered(filter_active: bool, query: &str, rows: usize, files: usize) -> (r: bool)
    ensures
        r == ((filter_active && query@.len() > 0) || rows != files),
{
    (filter_active && !query.is_empty()) || rows != files
}

/// Where a path is shown, for range selections: its row in a filtered view,
/// its position in the listing otherwise.
pub fn position_in_view(
    files: &Vec<FileItem>,
    rows: &Vec<usize>,
    filtered: bool,
    path: &str,
) -> (r: Option<usize>)
    requires
        rows_valid(files@, rows@),
    ensures
        r == view_spot(files@, rows@, filtered, path@),
        filtered ==> r == row_of(files@, rows@, path@),
        !filtered ==> match r {
            Some(k) => k < files@.len() && same_path(files@[k as int].path@, path@) && forall|m: int|
                0 <= m < k ==> !same_path(files@[m].path@, path@),
            None => forall|m: int| 0 <= m < files@.len() ==> !same_path(files@[m].path@, path@),
        },
{
    if filtered {
        find_row(files, rows, path)
    } else {
        position_of_path(files, path)
    }
}

impl Selection {
    /// Nothing selected, no anchor and no focus.
    pub fn new() -> (s: Selection)
        ensures
            s.selected@.len() == 0,
            s.anchor is None,
            s.focus is None,
    {
        Selection { selected: Vec::new(), anchor: None, focus: None }
    }

    fn insert(&mut self, path: String)
        ensures
            final(self).selected@ == with_path(old(self).selected@, path),
            final(self).anchor == old(self).anchor,
            final(self).focus == old(self).focus,
    {
        let mut i: usize = 0;
        while i < self.selected.len()
            invariant
                self.selected@ == old(self).selected@,
                self.anchor == old(self).anchor,
                self.focus == old(self).focus,
                i <= self.selected@.len(),
                forall|k: int| 0 <= k < i ==> !same_path(#[trigger] self.selected@[k]@, path@),
            decreases self.selected@.len() - i,
        {
            if paths_equal(self.selected[i].as_str(), path.as_str()) {
                return;
            }
            i = i + 1;
        }
        self.selected.push(path);
    }

    fn insert_all(&mut self, paths: Vec<String>)
        ensures
            final(self).selected@ == with_paths(old(self).selected@, paths@),
            final(self).anchor == old(self).anchor,
            final(self).focus == old(self).focus,
    {
        let mut i: usize = 0;
        while i < paths.len()
            invariant
                i <= paths@.len(),
                self.selected@ == with_paths(old(self).selected@, paths@.take(i as int)),
                self.anchor == old(self).anchor,
                self.focus == old(self).focus,
            decreases paths@.len() - i,
        {
            proof {
                assert(paths@.take(i + 1).drop_last() =~= paths@.take(i as int));
            }
            let p = paths[i].clone();
            self.insert(p);
            i = i + 1;
        }
        assert(paths@.take(paths@.len() as int) =~= paths@);
    }

    /// Selects a path; when it is shown at `position`, that row becomes the
    /// anchor and the focus.
    pub fn select(&mut self, path: String, position: Option<usize>)
        ensures
            final(self).selected@ == with_path(old(self).selected@, path),
            position is Some ==> final(self).anchor == position && final(self).focus == position,
            position is None ==> final(self).anchor == old(self).anchor && final(self).focus
                == old(self).focus,
    {
        self.insert(path);
        if position.is_some() {
            self.anchor = position;
            self.focus = position;
        }
    }

    /// Deselects every selected path that is the same path as `path`.
    pub fn deselect(&mut self, path: &str)
        ensures
            final(self).selected@ == without_path(old(self).selected@, path@),
            final(self).anchor == old(self).anchor,
            final(self).focus == old(self).focus,
    {
        let kept = retain_other_paths(&self.selected, path);
        self.selected = kept;
    }

    /// Selects exactly the given paths (select all rows, or a range).
    pub fn select_only(&mut self, paths: Vec<String>)
        ensures
            final(self).selected@ == with_paths(Seq::empty(), paths@),
            final(self).anchor == old(self).anchor,
            final(self).focus == old(self).focus,
    {
        self.selected = Vec::new();
        self.insert_all(paths);
    }

    /// Deselects everything.
    pub fn clear(&mut self)
        ensures
            final(self).selected@.len() == 0,
            final(self).anchor == old(self).anchor,
            final(self).focus == old(self).focus,
    {
        self.selected = Vec::new();
    }

    /// Selects exactly the paths of a range; the focus moves to `new_focus`
    /// when there is one (see `range_select_focus`).
    pub fn range_select(&mut self, paths: Vec<String>, new_focus: Option<usize>)
        ensures
            final(self).selected@ == with_paths(Seq::empty(), paths@),
            final(self).anchor == old(self).anchor,
            new_focus is Some ==> final(self).focus == new_focus,
            new_focus is None ==> final(self).focus == old(self).focus,
    {
        self.select_only(paths);
        if new_focus.is_some() {
            self.focus = new_focus;
        }
    }
}

/// Selecting a path makes it selected, whatever was selected before.
pub proof fn lemma_selected_after_select(sel: Seq<String>, p: String)
    ensures
        contains_path(with_path(sel, p), p@),
{
    if !contains_path(sel, p@) {
        let s = sel.push(p);
        assert(same_path(s[sel.len() as int]@, p@));
    }
}

/// Selecting an already selected path changes nothing.
pub proof fn lemma_select_is_idempotent(sel: Seq<String>, p: String)
    ensures
        with_path(with_path(sel, p), p) == with_path(sel, p),
{
    lemma_selected_after_select(sel, p);
}

} // verus!
