//! Moving between folders in a view: the back and forward history, going up
//! to the parent folder, and the map from each folder to the subfolder the
//! user last came from, which restores the selection on the way back.
use vstd::prelude::*;

use crate::workspace::{parent_of, path_parent, paths_equal, same_path};

verus! {

/// The navigation state of a view: the current folder with the history
/// behind and ahead of it.
#[derive(Debug)]
pub struct Navigation {
    pub current: String,
    pub back: Vec<String>,
    pub forward: Vec<String>,
}

impl Navigation {
    /// A view on `path` with no history.
    pub fn new(path: String) -> (n: Navigation)
        ensures
            n.current == path,
            n.back@.len() == 0,
            n.forward@.len() == 0,
    {
        Navigation { current: path, back: Vec::new(), forward: Vec::new() }
    }

    /// A copy of the navigation: the same folder with the same history behind
    /// and ahead.
    pub fn duplicate(&self) -> (n: Navigation)
        ensures
            n.current == self.current,
            n.back@ == self.back@,
            n.forward@ == self.forward@,
    {
        Navigation {
            current: self.current.clone(),
            back: copy_paths(&self.back),
            forward: copy_paths(&self.forward),
        }
    }

    /// Goes to `path`: the current folder joins the back history and the
    /// forward history is dropped.
    pub fn go_to(&mut self, path: String)
        ensures
            final(self).current == path,
            final(self).back@ == old(self).back@.push(old(self).current),
            final(self).forward@.len() == 0,
    {
        let cur = self.current.clone();
        self.back.push(cur);
        self.current = path;
        self.forward = Vec::new();
    }

    /// Goes back one step when there is history behind; the current folder
    /// joins the forward history. Says whether it moved.
    pub fn go_back(&mut self) -> (moved: bool)
        ensures
            moved == (old(self).back@.len() > 0),
            moved ==> went_back(*old(self), *final(self)),
            !moved ==> final(self).current == old(self).current && final(self).back@ == old(self).back@ && final(self).forward@ == old(self).forward@,
    {
        match self.back.pop() {
            Some(prev) => {
                let cur = self.current.clone();
                self.forward.push(cur);
                self.current = prev;
                true
            },
            None => false,
        }
    }

    /// Goes forward one step when there is history ahead; the current folder
    /// joins the back history. Says whether it moved.
    pub fn go_forward(&mut self) -> (moved: bool)
        ensures
            moved == (old(self).forward@.len() > 0),
            moved ==> went_forward(*old(self), *final(self)),
            !moved ==> final(self).current == old(self).current && final(self).back@ == old(self).back@ && final(self).forward@ == old(self).forward@,
    {
        match self.forward.pop() {
            Some(next) => {
                let cur = self.current.clone();
                self.back.push(cur);
                self.current = next;
                true
            },
            None => false,
        }
    }

    /// Goes to the parent folder, as `go_to` does, when the current folder
    /// has one. Says whether it moved.
    pub fn go_up(&mut self) -> (moved: bool)
        ensures
            moved == (parent_of(old(self).current@) is Some),
            moved ==> Some(final(self).current@) == parent_of(old(self).current@) && final(self).back@ == old(self).back@.push(old(self).current) && final(self).forward@.len() == 0,
            !moved ==> final(self).current == old(self).current && final(self).back@ == old(self).back@ && final(self).forward@ == old(self).forward@,
    {
        match path_parent(self.current.as_str()) {
            Some(parent) => {
                self.go_to(parent);
                true
            },
            None => false,
        }
    }
}

fn copy_paths(paths: &Vec<String>) -> (r: Vec<String>)
    ensures
        r@ == paths@,
{
    let mut r: Vec<String> = Vec::new();
    let mut i: usize = 0;
    while i < paths.len()
        invariant
            i <= paths@.len(),
            r@ == paths@.take(i as int),
        decreases paths@.len() - i,
    {
        r.push(paths[i].clone());
        assert(r@ =~= paths@.take(i + 1));
        i = i + 1;
    }
    assert(paths@.take(paths@.len() as int) =~= paths@);
    r
}

/// `b` is `a` after one step back: the last folder behind becomes current and
/// the folder left goes ahead.
pub open spec fn went_back(a: Navigation, b: Navigation) -> bool {
    &&& a.back@.len() > 0
    &&& b.current == a.back@.last()
    &&& b.back@ == a.back@.drop_last()
    &&& b.forward@ == a.forward@.push(a.current)
}

/// `b` is `a` after one step forward: the last folder ahead becomes current
/// and the folder left goes behind.
pub open spec fn went_forward(a: Navigation, b: Navigation) -> bool {
    &&& a.forward@.len() > 0
    &&& b.current == a.forward@.last()
    &&& b.forward@ == a.forward@.drop_last()
    &&& b.back@ == a.back@.push(a.current)
}

/// Going back and then forward returns to the folder left, with the same
/// history behind and ahead; so does going forward and then back.
pub proof fn lemma_back_forward_return(a: Navigation, b: Navigation, c: Navigation)
    ensures
        went_back(a, b) && went_forward(b, c) ==> {
            &&& c.current == a.current
            &&& c.back@ == a.back@
            &&& c.forward@ == a.forward@
        },
        went_forward(a, b) && went_back(b, c) ==> {
            &&& c.current == a.current
            &&& c.back@ == a.back@
            &&& c.forward@ == a.forward@
        },
{
    if went_back(a, b) && went_forward(b, c) {
        assert(c.forward@ =~= a.forward@);
        assert(c.back@ =~= a.back@);
    }
    if went_forward(a, b) && went_back(b, c) {
        assert(c.forward@ =~= a.forward@);
        assert(c.back@ =~= a.back@);
    }
}

/// One entry of a view's history map: the subfolder last left for `parent`.
#[derive(Debug)]
pub struct HistoryEntry {
    pub parent: String,
    pub child: String,
}

/// The entries of a history map as (folder, subfolder) texts.
pub open spec fn entries_view(h: Seq<HistoryEntry>) -> Seq<(Seq<char>, Seq<char>)> {
    h.map_values(|e: HistoryEntry| (e.parent@, e.child@))
}

/// The entries whose folder is not the same path as `key`, in order.
pub open spec fn without_key(h: Seq<(Seq<char>, Seq<char>)>, key: Seq<char>) -> Seq<
    (Seq<char>, Seq<char>),
>
    decreases h.len(),
{
    if h.len() == 0 {
        h
    } else {
        let rest = without_key(h.drop_last(), key);
        if same_path(h.last().0, key) {
            rest
        } else {
            rest.push(h.last())
        }
    }
}

/// The subfolder recorded for `key`: that of the latest entry whose folder is
/// the same path as `key`.
pub open spec fn recorded_child(h: Seq<(Seq<char>, Seq<char>)>, key: Seq<char>) -> Option<
    Seq<char>,
>
    decreases h.len(),
{
    if h.len() == 0 {
        None
    } else if same_path(h.last().0, key) {
        Some(h.last().1)
    } else {
        recorded_child(h.drop_last(), key)
    }
}

/// The map after recording `child` for `parent`: any earlier entry for that
/// folder is replaced.
pub open spec fn with_recorded(
    h: Seq<(Seq<char>, Seq<char>)>,
    parent: Seq<char>,
    child: Seq<char>,
) -> Seq<(Seq<char>, Seq<char>)> {
    without_key(h, parent).push((parent, child))
}

/// The map of a view from each folder to the subfolder the user last left it
/// for.
#[derive(Debug)]
pub struct History {
    pub entries: Vec<HistoryEntry>,
}

impl History {
    /// An empty map.
    pub fn new() -> (h: History)
        ensures
            h.entries@.len() == 0,
    {
        History { entries: Vec::new() }
    }

    /// The map as (folder, subfolder) texts.
    pub open spec fn view_entries(&self) -> Seq<(Seq<char>, Seq<char>)> {
        entries_view(self.entries@)
    }

    /// Records `child` as the subfolder last left for `parent`.
    pub fn record(&mut self, parent: String, child: String)
        ensures
            final(self).view_entries() == with_recorded(old(self).view_entries(), parent@, child@),
    {
        let mut kept: Vec<HistoryEntry> = Vec::new();
        let mut i: usize = 0;
        while i < self.entries.len()
            invariant
                i <= self.entries@.len(),
                self.entries@ == old(self).entries@,
                entries_view(kept@) == without_key(entries_view(self.entries@.take(i as int)), parent@),
            decreases self.entries@.len() - i,
        {
            proof {
                assert(entries_view(self.entries@.take(i + 1)).drop_last() =~= entries_view(
                    self.entries@.take(i as int),
                ));
                assert(entries_view(self.entries@.take(i + 1)).last() == (
                    self.entries@[i as int].parent@,
                    self.entries@[i as int].child@,
                ));
            }
            if !paths_equal(self.entries[i].parent.as_str(), parent.as_str()) {
                let e = HistoryEntry {
                    parent: self.entries[i].parent.clone(),
                    child: self.entries[i].child.clone(),
                };
                let ghost before = kept@;
                kept.push(e);
                assert(entries_view(kept@) =~= entries_view(before).push(
                    (self.entries@[i as int].parent@, self.entries@[i as int].child@),
                ));
            }
            i = i + 1;
        }
        assert(self.entries@.take(self.entries@.len() as int) =~= self.entries@);
        let ghost before = kept@;
        let ghost pv = parent@;
        let ghost cv = child@;
        kept.push(HistoryEntry { parent, child });
        assert(entries_view(kept@) =~= entries_view(before).push((pv, cv)));
        self.entries = kept;
    }

    /// The subfolder recorded for `key` (`recorded_child`).
    pub fn lookup(&self, key: &str) -> (r: Option<String>)
        ensures
            match r {
                Some(c) => recorded_child(self.view_entries(), key@) == Some(c@),
                None => recorded_child(self.view_entries(), key@) is None,
            },
    {
        let mut i: usize = self.entries.len();
        assert(self.entries@.take(i as int) =~= self.entries@);
        while i > 0
            invariant
                i <= self.entries@.len(),
                recorded_child(self.view_entries(), key@) == recorded_child(
                    entries_view(self.entries@.take(i as int)),
                    key@,
                ),
            decreases i,
        {
            proof {
                assert(entries_view(self.entries@.take(i as int)).drop_last() =~= entries_view(
                    self.entries@.take(i - 1),
                ));
                assert(entries_view(self.entries@.take(i as int)).last() == (
                    self.entries@[i - 1].parent@,
                    self.entries@[i - 1].child@,
                ));
            }
            if paths_equal(self.entries[i - 1].parent.as_str(), key) {
                return Some(self.entries[i - 1].child.clone());
            }
            i = i - 1;
        }
        None
    }
}

/// What is recorded for a folder is what was recorded last for it.
pub proof fn lemma_recorded_is_found(
    h: Seq<(Seq<char>, Seq<char>)>,
    parent: Seq<char>,
    child: Seq<char>,
)
    ensures
        recorded_child(with_recorded(h, parent, child), parent) == Some(child),
{
}

} // verus!
