//! Loading a view: where its entries come from, the entries of a folder as
//! they arrive from the background loader, and the folder sizes requested from
//! and reported by the size worker.
//!
//! The caller drains the channels and sends the requests; what each received
//! batch and each reported size does to the listing is decided here.
use vstd::prelude::*;

use crate::actions::{apply_folder_size, first_with_path, with_folder_size};
use crate::selection::Selection;
use crate::sorting::{
    is_sorted, is_stable_arrangement, sort_files, FileItem, ListingOrder, SortColumn,
};
use crate::workspace::{contains_path, paths_equal, retain_other_paths, same_path, without_path};

verus! {

/// How many size requests are sent to the worker per frame.
pub const SIZE_REQUESTS_PER_FRAME: usize = 6;

/// The folders whose sizes are wanted: the set of folders not yet finished,
/// each counted once, and the queue of those not yet sent to the worker.
#[derive(Debug)]
pub struct SizeRequests {
    pub pending: Vec<String>,
    pub queue: Vec<String>,
}

/// The pending set and queue after asking for the size of `p`: a folder not
/// yet pending joins both; a pending one changes nothing.
pub open spec fn scheduled(r: (Seq<String>, Seq<String>), p: String) -> (Seq<String>, Seq<String>) {
    if contains_path(r.0, p@) {
        r
    } else {
        (r.0.push(p), r.1.push(p))
    }
}

/// The pending set and queue after a batch of entries arrives: every folder
/// of the batch, in order, is asked for when folder scanning is on.
pub open spec fn scheduled_batch(
    r: (Seq<String>, Seq<String>),
    batch: Seq<FileItem>,
    scanning: bool,
) -> (Seq<String>, Seq<String>)
    decreases batch.len(),
{
    if batch.len() == 0 {
        r
    } else {
        let before = scheduled_batch(r, batch.drop_last(), scanning);
        if scanning && batch.last().is_dir {
            scheduled(before, batch.last().path)
        } else {
            before
        }
    }
}

/// No pending folder is the same path as a later one.
pub open spec fn pending_distinct(pending: Seq<String>) -> bool {
    forall|i: int, j: int|
        0 <= i < j < pending.len() ==> !same_path(#[trigger] pending[i]@, #[trigger] pending[j]@)
}

/// Asking for a folder's size never makes it pending twice.
pub proof fn lemma_scheduled_keeps_pending_distinct(r: (Seq<String>, Seq<String>), p: String)
    requires
        pending_distinct(r.0),
    ensures
        pending_distinct(scheduled(r, p).0),
{
    if !contains_path(r.0, p@) {
        let s = r.0.push(p);
        assert forall|i: int, j: int| 0 <= i < j < s.len() implies !same_path(
            #[trigger] s[i]@,
            #[trigger] s[j]@,
        ) by {
            if j == r.0.len() {
                assert(s[i] == r.0[i]);
            } else {
                assert(s[i] == r.0[i]);
                assert(s[j] == r.0[j]);
            }
        }
    }
}

/// `result` is `original` sorted, in a stable way, by the column and
/// direction; an `original` already sorted is kept as it is.
pub open spec fn is_sorting_of(
    result: Seq<FileItem>,
    original: Seq<FileItem>,
    column: SortColumn,
    ascending: bool,
    listing_order: ListingOrder,
) -> bool {
    &&& is_sorted(result, column, ascending, listing_order)
    &&& exists|perm: Seq<int>|
        is_stable_arrangement(result, original, perm, column, ascending, listing_order)
    &&& is_sorted(original, column, ascending, listing_order) ==> result == original
}

impl SizeRequests {
    /// No folder pending.
    pub fn new() -> (r: SizeRequests)
        ensures
            r.pending@.len() == 0,
            r.queue@.len() == 0,
    {
        SizeRequests { pending: Vec::new(), queue: Vec::new() }
    }

    /// Asks for the size of a folder unless it is already pending; says
    /// whether it was added.
    pub fn schedule(&mut self, path: String) -> (added: bool)
        ensures
            added == !contains_path(old(self).pending@, path@),
            (final(self).pending@, final(self).queue@) == scheduled(
                (old(self).pending@, old(self).queue@),
                path,
            ),
    {
        let mut i: usize = 0;
        while i < self.pending.len()
            invariant
                self.pending@ == old(self).pending@,
                self.queue@ == old(self).queue@,
                i <= self.pending@.len(),
                forall|k: int| 0 <= k < i ==> !same_path(#[trigger] self.pending@[k]@, path@),
            decreases self.pending@.len() - i,
        {
            if paths_equal(self.pending[i].as_str(), path.as_str()) {
                return false;
            }
            i = i + 1;
        }
        let copy = path.clone();
        self.pending.push(copy);
        self.queue.push(path);
        true
    }

    /// Takes the next requests to send: the first `SIZE_REQUESTS_PER_FRAME`
    /// of the queue, or all of it when it is shorter.
    pub fn next_batch(&mut self) -> (batch: Vec<String>)
        ensures
            ({
                let n = if old(self).queue@.len() < SIZE_REQUESTS_PER_FRAME {
                    old(self).queue@.len() as int
                } else {
                    SIZE_REQUESTS_PER_FRAME as int
                };
                &&& batch@ == old(self).queue@.take(n)
                &&& final(self).queue@ == old(self).queue@.skip(n)
            }),
            final(self).pending@ == old(self).pending@,
    {
        let mut batch: Vec<String> = Vec::new();
        let mut taken: usize = 0;
        while taken < SIZE_REQUESTS_PER_FRAME && self.queue.len() > 0
            invariant
                taken <= SIZE_REQUESTS_PER_FRAME,
                taken <= old(self).queue@.len(),
                batch@ == old(self).queue@.take(taken as int),
                self.queue@ == old(self).queue@.skip(taken as int),
                self.pending@ == old(self).pending@,
            decreases SIZE_REQUESTS_PER_FRAME - taken,
        {
            let p = self.queue.remove(0);
            batch.push(p);
            assert(batch@ =~= old(self).queue@.take(taken + 1));
            assert(self.queue@ =~= old(self).queue@.skip(taken + 1));
            taken = taken + 1;
        }
        batch
    }

    /// A folder whose size is final is no longer pending.
    pub fn finish(&mut self, path: &str)
        ensures
            final(self).pending@ == without_path(old(self).pending@, path@),
            final(self).queue@ == old(self).queue@,
    {
        let kept = retain_other_paths(&self.pending, path);
        self.pending = kept;
    }
}

/// How many loaded entries are taken from the background loader per frame.
pub const RECEIVE_BATCH_LIMIT: usize = 128;

/// The background work attached to a view while it loads.
#[derive(Clone, Copy, Debug, PartialEq, Eq, Structural)]
pub struct LoadState {
    /// Entries are still arriving from the background loader.
    pub receiving: bool,
    /// The view shows that it is loading.
    pub loading: bool,
    /// A size worker is attached to the view.
    pub sizing: bool,
}

/// Takes the entries received from the background loader in one frame (at
/// most `RECEIVE_BATCH_LIMIT`), and whether the loader has finished. A view
/// that is not receiving ignores the call. Otherwise the batch joins the
/// listing, which is sorted again, and the size of every folder of the batch
/// is asked for when folder scanning is on; a finished loader ends the
/// loading. Says whether anything changed.
pub fn receive_batch(
    files: &mut Vec<FileItem>,
    requests: &mut SizeRequests,
    load: &mut LoadState,
    batch: Vec<FileItem>,
    finished: bool,
    scanning: bool,
    column: SortColumn,
    ascending: bool,
    listing_order: ListingOrder,
) -> (changed: bool)
    requires
        batch@.len() <= RECEIVE_BATCH_LIMIT,
    ensures
        !old(load).receiving ==> {
            &&& !changed
            &&& final(files)@ == old(files)@
            &&& final(requests).pending@ == old(requests).pending@
            &&& final(requests).queue@ == old(requests).queue@
            &&& *final(load) == *old(load)
        },
        old(load).receiving ==> {
            &&& changed == (batch@.len() > 0 || finished)
            &&& (batch@.len() > 0 ==> is_sorting_of(
                final(files)@,
                old(files)@ + batch@,
                column,
                ascending,
                listing_order,
            ))
            &&& (batch@.len() == 0 ==> final(files)@ == old(files)@)
            &&& (final(requests).pending@, final(requests).queue@) == scheduled_batch(
                (old(requests).pending@, old(requests).queue@),
                batch@,
                scanning,
            )
            &&& (finished ==> *final(load) == LoadState {
                receiving: false,
                loading: false,
                ..*old(load)
            })
            &&& (!finished ==> *final(load) == *old(load))
        },
{
    if !load.receiving {
        return false;
    }
    let mut batch = batch;
    let ghost items = batch@;
    let has_items = batch.len() > 0;
    let mut i: usize = 0;
    while i < batch.len()
        invariant
            batch@ == items,
            i <= items.len(),
            (requests.pending@, requests.queue@) == scheduled_batch(
                (old(requests).pending@, old(requests).queue@),
                items.take(i as int),
                scanning,
            ),
        decreases items.len() - i,
    {
        proof {
            assert(items.take(i + 1).drop_last() =~= items.take(i as int));
        }
        if scanning && batch[i].is_dir {
            let p = batch[i].path.clone();
            requests.schedule(p);
        }
        i = i + 1;
    }
    assert(items.take(items.len() as int) =~= items);
    if has_items {
        files.append(&mut batch);
        sort_files(files, column, ascending, listing_order);
    }
    if finished {
        load.receiving = false;
        load.loading = false;
    }
    has_items || finished
}

/// One report of the size worker: a folder, its size so far, and whether
/// that size is final.
#[derive(Debug)]
pub struct SizeUpdate {
    pub path: String,
    pub size: u64,
    pub done: bool,
}

/// The listing after the reports, in order.
pub open spec fn sizes_applied(files: Seq<FileItem>, updates: Seq<SizeUpdate>) -> Seq<FileItem>
    decreases updates.len(),
{
    if updates.len() == 0 {
        files
    } else {
        let u = updates.last();
        with_folder_size(sizes_applied(files, updates.drop_last()), u.path@, u.size)
    }
}

/// The pending set after the reports: every folder reported as done leaves it.
pub open spec fn pending_after(pending: Seq<String>, updates: Seq<SizeUpdate>) -> Seq<String>
    decreases updates.len(),
{
    if updates.len() == 0 {
        pending
    } else {
        let before = pending_after(pending, updates.drop_last());
        if updates.last().done {
            without_path(before, updates.last().path@)
        } else {
            before
        }
    }
}

/// Whether some report names a folder listed at that point.
pub open spec fn any_size_applied(files: Seq<FileItem>, updates: Seq<SizeUpdate>) -> bool
    decreases updates.len(),
{
    if updates.len() == 0 {
        false
    } else {
        let before = sizes_applied(files, updates.drop_last());
        any_size_applied(files, updates.drop_last()) || first_with_path(
            before,
            updates.last().path@,
        ) is Some
    }
}

/// Applies the reports of the size worker to a listing: each reported size
/// goes to the first entry with that path, finished folders leave the pending
/// set, and the listing is sorted again when some entry changed. Says whether
/// one did.
pub fn apply_size_updates(
    files: &mut Vec<FileItem>,
    requests: &mut SizeRequests,
    updates: Vec<SizeUpdate>,
    column: SortColumn,
    ascending: bool,
    listing_order: ListingOrder,
) -> (updated: bool)
    ensures
        updated == any_size_applied(old(files)@, updates@),
        updated ==> is_sorting_of(
            final(files)@,
            sizes_applied(old(files)@, updates@),
            column,
            ascending,
            listing_order,
        ),
        !updated ==> final(files)@ == old(files)@,
        final(requests).pending@ == pending_after(old(requests).pending@, updates@),
        final(requests).queue@ == old(requests).queue@,
{
    let mut updated = false;
    let mut i: usize = 0;
    while i < updates.len()
        invariant
            i <= updates@.len(),
            files@ == sizes_applied(old(files)@, updates@.take(i as int)),
            updated == any_size_applied(old(files)@, updates@.take(i as int)),
            !updated ==> files@ == old(files)@,
            requests.pending@ == pending_after(old(requests).pending@, updates@.take(i as int)),
            requests.queue@ == old(requests).queue@,
        decreases updates@.len() - i,
    {
        proof {
            assert(updates@.take(i + 1).drop_last() =~= updates@.take(i as int));
        }
        let u = &updates[i];
        if u.done {
            requests.finish(u.path.as_str());
        }
        let changed = apply_folder_size(files, u.path.as_str(), u.size);
        updated = updated || changed;
        i = i + 1;
    }
    assert(updates@.take(updates@.len() as int) =~= updates@);
    if updated {
        sort_files(files, column, ascending, listing_order);
    }
    updated
}

/// Where the entries of a view come from when it is (re)loaded.
#[derive(Clone, Copy, Debug, PartialEq, Eq, Structural)]
pub enum ListingSource {
    /// A raw physical drive: nothing is listed, and the view explains why.
    UnsupportedDrive,
    /// The recycle bin, read through the shell.
    RecycleBin,
    /// The drives of the machine.
    Drives,
    /// A folder, read in the background.
    Folder,
}

/// Chooses where a view's entries come from: raw drives first, then the
/// recycle bin, then the drive list at the root, else the folder itself.
pub fn listing_source(is_raw_drive: bool, is_recycle_bin: bool, is_root: bool) -> (r: ListingSource)
    ensures
        is_raw_drive ==> r == ListingSource::UnsupportedDrive,
        !is_raw_drive && is_recycle_bin ==> r == ListingSource::RecycleBin,
        !is_raw_drive && !is_recycle_bin && is_root ==> r == ListingSource::Drives,
        !is_raw_drive && !is_recycle_bin && !is_root ==> r == ListingSource::Folder,
{
    if is_raw_drive {
        ListingSource::UnsupportedDrive
    } else if is_recycle_bin {
        ListingSource::RecycleBin
    } else if is_root {
        ListingSource::Drives
    } else {
        ListingSource::Folder
    }
}

/// What is attached to a view that starts loading from `source`: a folder
/// is read in the background, with a size worker when folder scanning is on;
/// the other sources are listed at once.
pub open spec fn load_started(source: ListingSource, scanning: bool) -> LoadState {
    if source == ListingSource::Folder {
        LoadState { receiving: true, loading: true, sizing: scanning }
    } else {
        LoadState { receiving: false, loading: false, sizing: false }
    }
}

/// Empties a view before it is loaded again from `source`: no entries, no
/// size requests, nothing selected. Says what background work the view now
/// waits on; the caller starts it (and lists drives or the recycle bin).
pub fn reset_view(
    files: &mut Vec<FileItem>,
    requests: &mut SizeRequests,
    selection: &mut Selection,
    source: ListingSource,
    scanning: bool,
) -> (load: LoadState)
    ensures
        final(files)@.len() == 0,
        final(requests).pending@.len() == 0,
        final(requests).queue@.len() == 0,
        final(selection).selected@.len() == 0,
        final(selection).anchor is None,
        final(selection).focus is None,
        load == load_started(source, scanning),
{
    files.clear();
    *requests = SizeRequests::new();
    *selection = Selection::new();
    match source {
        ListingSource::Folder => LoadState { receiving: true, loading: true, sizing: scanning },
        _ => LoadState { receiving: false, loading: false, sizing: false },
    }
}

} // verus!
