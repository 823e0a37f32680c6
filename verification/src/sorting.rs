//! Ordering of directory listings.
//!
//! A listing is sorted by one column, ascending or descending, and in the
//! Windows listing style folders always come before files. The sort is
//! stable: entries that compare equal keep their relative order.
use vstd::prelude::*;

use crate::text::{
    chars_of, extension_text, int_order, lemma_lex_order_antisymmetric,
    lemma_lex_order_transitive, lex_compare, lex_order, lowercase_of, path_extension,
    to_lowercase,
};

verus! {

/// The column a listing is sorted by.
#[derive(Clone, Copy, Debug, PartialEq, Eq, Structural)]
pub enum SortColumn {
    Name,
    Size,
    Modified,
    Created,
    Type,
    Deleted,
}

/// Whether folders are grouped before files (Windows) or mixed with them
/// (Linux).
#[derive(Clone, Copy, Debug, PartialEq, Eq, Structural)]
pub enum ListingOrder {
    Windows,
    Linux,
}

impl Default for ListingOrder {
    fn default() -> (r: Self)
        ensures
            r == ListingOrder::Windows,
    {
        ListingOrder::Windows
    }
}

/// One entry of a directory listing. Timestamps are kept as raw tick counts
/// next to their display text.
#[derive(Debug)]
pub struct FileItem {
    pub name: String,
    pub path: String,
    pub is_dir: bool,
    pub is_hidden: bool,
    pub recycle_bin_pidl: Option<Vec<u8>>,
    pub file_size: Option<u64>,
    pub modified_time: Option<String>,
    pub created_time: Option<String>,
    pub deleted_time: Option<String>,
    pub modified_time_raw: Option<u64>,
    pub created_time_raw: Option<u64>,
    pub deleted_time_raw: Option<u64>,
}

impl FileItem {
    /// Builds an entry from its fields, in declaration order.
    pub fn new(
        name: String,
        path: String,
        is_dir: bool,
        is_hidden: bool,
        recycle_bin_pidl: Option<Vec<u8>>,
        file_size: Option<u64>,
        modified_time: Option<String>,
        created_time: Option<String>,
        deleted_time: Option<String>,
        modified_time_raw: Option<u64>,
        created_time_raw: Option<u64>,
        deleted_time_raw: Option<u64>,
    ) -> (r: FileItem)
        ensures
            r == (FileItem {
                name,
                path,
                is_dir,
                is_hidden,
                recycle_bin_pidl,
                file_size,
                modified_time,
                created_time,
                deleted_time,
                modified_time_raw,
                created_time_raw,
                deleted_time_raw,
            }),
    {
        FileItem {
            name,
            path,
            is_dir,
            is_hidden,
            recycle_bin_pidl,
            file_size,
            modified_time,
            created_time,
            deleted_time,
            modified_time_raw,
            created_time_raw,
            deleted_time_raw,
        }
    }
}

/// The name a recycle-bin entry is listed under: the name the item had before
/// it was deleted where the shell reports one, else its display name where
/// that is not empty, else "Unknown".
pub open spec fn recycle_name_of(original: Option<Seq<char>>, display: Option<Seq<char>>) -> Seq<char> {
    match original {
        Some(o) => o,
        None => match display {
            Some(d) => if d.len() > 0 {
                d
            } else {
                "Unknown"@
            },
            None => "Unknown"@,
        },
    }
}

/// Chooses the name a recycle-bin entry is listed under.
pub fn recycle_entry_name(original: Option<String>, display: Option<String>) -> (r: String)
    ensures
        r@ == recycle_name_of(
            match original {
                Some(o) => Some(o@),
                None => None,
            },
            match display {
                Some(d) => Some(d@),
                None => None,
            },
        ),
{
    match original {
        Some(o) => o,
        None => match display {
            Some(d) => if !d.as_str().is_empty() {
                d
            } else {
                "Unknown".to_string()
            },
            None => "Unknown".to_string(),
        },
    }
}

/// Three-way comparison of optional timestamps: a missing value comes first.
pub open spec fn option_order(a: Option<u64>, b: Option<u64>) -> int {
    match (a, b) {
        (None, None) => 0,
        (None, Some(_)) => -1,
        (Some(_), None) => 1,
        (Some(x), Some(y)) => int_order(x as int, y as int),
    }
}

/// The size a listing sorts by: a missing size counts as zero.
pub open spec fn size_or_zero(item: FileItem) -> int {
    match item.file_size {
        Some(s) => s as int,
        None => 0,
    }
}

/// Case-insensitive order of two names.
pub open spec fn name_order(a: FileItem, b: FileItem) -> int {
    lex_order(lowercase_of(a.name@), lowercase_of(b.name@))
}

/// Case-insensitive order of the extensions of two paths.
pub open spec fn extension_order(a: FileItem, b: FileItem) -> int {
    lex_order(lowercase_of(extension_text(a.path@)), lowercase_of(extension_text(b.path@)))
}

/// The ascending order of two entries by one column.
pub open spec fn column_order(a: FileItem, b: FileItem, column: SortColumn) -> int {
    match column {
        SortColumn::Name => name_order(a, b),
        SortColumn::Size => int_order(size_or_zero(a), size_or_zero(b)),
        SortColumn::Modified => option_order(a.modified_time_raw, b.modified_time_raw),
        SortColumn::Created => option_order(a.created_time_raw, b.created_time_raw),
        SortColumn::Deleted => option_order(a.deleted_time_raw, b.deleted_time_raw),
        SortColumn::Type => {
            if a.is_dir && !b.is_dir {
                -1
            } else if !a.is_dir && b.is_dir {
                1
            } else if a.is_dir {
                name_order(a, b)
            } else {
                extension_order(a, b)
            }
        },
    }
}

/// The order a listing is sorted by: -1 when `a` goes first, 1 when `b` goes
/// first, 0 when either may. In the Windows style a folder precedes a file
/// whatever the direction; otherwise the column order, reversed when
/// descending.
pub open spec fn item_order(
    a: FileItem,
    b: FileItem,
    column: SortColumn,
    ascending: bool,
    listing_order: ListingOrder,
) -> int {
    if listing_order is Windows && a.is_dir != b.is_dir {
        if a.is_dir {
            -1
        } else {
            1
        }
    } else if ascending {
        column_order(a, b, column)
    } else {
        -column_order(a, b, column)
    }
}

/// Every earlier entry goes before or together with every later one.
pub open spec fn is_sorted(
    s: Seq<FileItem>,
    column: SortColumn,
    ascending: bool,
    listing_order: ListingOrder,
) -> bool {
    forall|i: int, j: int|
        0 <= i < j < s.len() ==> #[trigger] item_order(s[i], s[j], column, ascending, listing_order)
            <= 0
}

/// `result` is `original` rearranged by the index map `perm` (a bijection on
/// the positions), and entries of equal rank keep their original relative
/// order.
pub open spec fn is_stable_arrangement(
    result: Seq<FileItem>,
    original: Seq<FileItem>,
    perm: Seq<int>,
    column: SortColumn,
    ascending: bool,
    listing_order: ListingOrder,
) -> bool {
    &&& perm.len() == result.len()
    &&& result.len() == original.len()
    &&& forall|k: int|
        0 <= k < perm.len() ==> 0 <= #[trigger] perm[k] < original.len() && result[k]
            == original[perm[k]]
    &&& forall|k: int, l: int| 0 <= k < l < perm.len() ==> #[trigger] perm[k] != #[trigger] perm[l]
    &&& forall|k: int, l: int|
        0 <= k < l < perm.len() && #[trigger] item_order(
            result[k],
            result[l],
            column,
            ascending,
            listing_order,
        ) == 0 ==> perm[k] < perm[l]
}

/// The column order is antisymmetric and ranges over -1, 0, 1.
pub proof fn lemma_column_order_antisymmetric(a: FileItem, b: FileItem, column: SortColumn)
    ensures
        column_order(a, b, column) == -column_order(b, a, column),
        -1 <= column_order(a, b, column) <= 1,
{
    lemma_lex_order_antisymmetric(lowercase_of(a.name@), lowercase_of(b.name@));
    lemma_lex_order_antisymmetric(
        lowercase_of(extension_text(a.path@)),
        lowercase_of(extension_text(b.path@)),
    );
}

/// The column order is transitive.
pub proof fn lemma_column_order_transitive(
    a: FileItem,
    b: FileItem,
    c: FileItem,
    column: SortColumn,
)
    requires
        column_order(a, b, column) <= 0,
        column_order(b, c, column) <= 0,
    ensures
        column_order(a, c, column) <= 0,
{
    match column {
        SortColumn::Name => {
            lemma_lex_order_transitive(
                lowercase_of(a.name@),
                lowercase_of(b.name@),
                lowercase_of(c.name@),
            );
        },
        SortColumn::Type => {
            if a.is_dir && b.is_dir && c.is_dir {
                lemma_lex_order_transitive(
                    lowercase_of(a.name@),
                    lowercase_of(b.name@),
                    lowercase_of(c.name@),
                );
            } else if !a.is_dir && !b.is_dir && !c.is_dir {
                lemma_lex_order_transitive(
                    lowercase_of(extension_text(a.path@)),
                    lowercase_of(extension_text(b.path@)),
                    lowercase_of(extension_text(c.path@)),
                );
            }
        },
        _ => {},
    }
}

/// The listing order is antisymmetric: swapping the entries negates it.
pub proof fn lemma_item_order_antisymmetric(
    a: FileItem,
    b: FileItem,
    column: SortColumn,
    ascending: bool,
    listing_order: ListingOrder,
)
    ensures
        item_order(a, b, column, ascending, listing_order) == -item_order(
            b,
            a,
            column,
            ascending,
            listing_order,
        ),
        -1 <= item_order(a, b, column, ascending, listing_order) <= 1,
{
    lemma_column_order_antisymmetric(a, b, column);
}

/// The listing order is transitive, so with antisymmetry it is a total
/// preorder on entries.
pub proof fn lemma_item_order_transitive(
    a: FileItem,
    b: FileItem,
    c: FileItem,
    column: SortColumn,
    ascending: bool,
    listing_order: ListingOrder,
)
    requires
        item_order(a, b, column, ascending, listing_order) <= 0,
        item_order(b, c, column, ascending, listing_order) <= 0,
    ensures
        item_order(a, c, column, ascending, listing_order) <= 0,
{
    lemma_column_order_antisymmetric(a, b, column);
    lemma_column_order_antisymmetric(b, c, column);
    lemma_column_order_antisymmetric(a, c, column);
    if listing_order is Windows && (a.is_dir != b.is_dir || b.is_dir != c.is_dir) {
    } else if ascending {
        lemma_column_order_transitive(a, b, c, column);
    } else {
        lemma_column_order_antisymmetric(c, b, column);
        lemma_column_order_antisymmetric(b, a, column);
        lemma_column_order_transitive(c, b, a, column);
    }
}

/// Case-insensitive comparison of two texts: -1, 0 or 1.
fn compare_lowercase(a: &str, b: &str) -> (r: i8)
    ensures
        r as int == lex_order(lowercase_of(a@), lowercase_of(b@)),
{
    let la = to_lowercase(a);
    let lb = to_lowercase(b);
    let ca = chars_of(la.as_str());
    let cb = chars_of(lb.as_str());
    lex_compare(&ca, &cb)
}

fn compare_u64(x: u64, y: u64) -> (r: i8)
    ensures
        r as int == int_order(x as int, y as int),
{
    if x < y {
        -1
    } else if x > y {
        1
    } else {
        0
    }
}

fn compare_option(a: Option<u64>, b: Option<u64>) -> (r: i8)
    ensures
        r as int == option_order(a, b),
{
    match (a, b) {
        (None, None) => 0,
        (None, Some(_)) => -1,
        (Some(_), None) => 1,
        (Some(x), Some(y)) => compare_u64(x, y),
    }
}

fn size_of_item(item: &FileItem) -> (r: u64)
    ensures
        r as int == size_or_zero(*item),
{
    match item.file_size {
        Some(s) => s,
        None => 0,
    }
}

fn compare_column(a: &FileItem, b: &FileItem, column: SortColumn) -> (r: i8)
    ensures
        r as int == column_order(*a, *b, column),
{
    match column {
        SortColumn::Name => compare_lowercase(a.name.as_str(), b.name.as_str()),
        SortColumn::Size => compare_u64(size_of_item(a), size_of_item(b)),
        SortColumn::Modified => compare_option(a.modified_time_raw, b.modified_time_raw),
        SortColumn::Created => compare_option(a.created_time_raw, b.created_time_raw),
        SortColumn::Deleted => compare_option(a.deleted_time_raw, b.deleted_time_raw),
        SortColumn::Type => {
            if a.is_dir && !b.is_dir {
                -1
            } else if !a.is_dir && b.is_dir {
                1
            } else if a.is_dir {
                compare_lowercase(a.name.as_str(), b.name.as_str())
            } else {
                let ea = path_extension(a.path.as_str());
                let eb = path_extension(b.path.as_str());
                compare_lowercase(ea.as_str(), eb.as_str())
            }
        },
    }
}

/// The listing order of two entries: -1, 0 or 1.
pub fn compare_items(
    a: &FileItem,
    b: &FileItem,
    column: SortColumn,
    ascending: bool,
    listing_order: ListingOrder,
) -> (r: i8)
    ensures
        r as int == item_order(*a, *b, column, ascending, listing_order),
{
    let windows = match listing_order {
        ListingOrder::Windows => true,
        ListingOrder::Linux => false,
    };
    if windows && a.is_dir != b.is_dir {
        return if a.is_dir {
            -1
        } else {
            1
        };
    }
    let ord = compare_column(a, b, column);
    proof {
        lemma_column_order_antisymmetric(*a, *b, column);
    }
    if ascending {
        ord
    } else {
        -ord
    }
}

/// Sorts a listing in place by one column, ascending or descending, in the
/// given listing style. The result is a stable rearrangement of the input that
/// is sorted by `item_order`; an input that is already sorted is left as it is.
pub fn sort_files(
    files: &mut Vec<FileItem>,
    column: SortColumn,
    ascending: bool,
    listing_order: ListingOrder,
)
    ensures
        is_sorted(final(files)@, column, ascending, listing_order),
        exists|perm: Seq<int>|
            is_stable_arrangement(
                final(files)@,
                old(files)@,
                perm,
                column,
                ascending,
                listing_order,
            ),
        is_sorted(old(files)@, column, ascending, listing_order) ==> final(files)@ == old(files)@,
{
    let n = files.len();
    let ghost orig = files@;
    let ghost mut perm: Seq<int> = Seq::empty();
    let mut i: usize = 0;
    while i < n
        invariant
            n == files@.len(),
            n == orig.len(),
            i <= n,
            perm.len() == i,
            forall|k: int| 0 <= k < i ==> 0 <= #[trigger] perm[k] < i && files@[k] == orig[perm[k]],
            forall|k: int| i <= k < n ==> #[trigger] files@[k] == orig[k],
            forall|k: int, l: int| 0 <= k < l < i ==> #[trigger] perm[k] != #[trigger] perm[l],
            forall|k: int, l: int|
                0 <= k < l < i ==> #[trigger] item_order(
                    files@[k],
                    files@[l],
                    column,
                    ascending,
                    listing_order,
                ) <= 0,
            forall|k: int, l: int|
                0 <= k < l < i && #[trigger] item_order(
                    files@[k],
                    files@[l],
                    column,
                    ascending,
                    listing_order,
                ) == 0 ==> perm[k] < perm[l],
            is_sorted(orig, column, ascending, listing_order) ==> files@ == orig,
        decreases n - i,
    {
        let ghost prev = files@;
        let x = files.remove(i);
        let ghost mid = files@;
        assert(x == orig[i as int]);
        let mut j: usize = i;
        while j > 0 && compare_items(&files[j - 1], &x, column, ascending, listing_order) > 0
            invariant
                files@ == mid,
                mid.len() == n - 1,
                n == orig.len(),
                i < n,
                j <= i,
                forall|m: int|
                    j <= m < i ==> #[trigger] item_order(
                        mid[m],
                        x,
                        column,
                        ascending,
                        listing_order,
                    ) > 0,
                is_sorted(orig, column, ascending, listing_order) ==> j == i,
                is_sorted(orig, column, ascending, listing_order) ==> mid == orig.remove(i as int),
                x == orig[i as int],
            decreases j,
        {
            proof {
                if is_sorted(orig, column, ascending, listing_order) {
                    assert(mid[j - 1] == orig[j - 1]);
                    assert(orig[j as int] == x);
                    assert(item_order(orig[j - 1], orig[j as int], column, ascending, listing_order)
                        <= 0);
                }
            }
            j = j - 1;
        }
        files.insert(j, x);
        proof {
            let new = files@;
            let new_perm = perm.insert(j as int, i as int);
            assert(new == mid.insert(j as int, x));
            assert forall|k: int| 0 <= k < i + 1 implies 0 <= #[trigger] new_perm[k] < i + 1
                && new[k] == orig[new_perm[k]] by {
                if k < j {
                    assert(new[k] == mid[k]);
                    assert(mid[k] == prev[k]);
                } else if k > j {
                    assert(new[k] == mid[k - 1]);
                    assert(mid[k - 1] == prev[k - 1]);
                    assert(new_perm[k] == perm[k - 1]);
                }
            }
            assert forall|k: int| i + 1 <= k < n implies #[trigger] new[k] == orig[k] by {
                assert(new[k] == mid[k - 1]);
                assert(mid[k - 1] == prev[k]);
            }
            assert forall|k: int, l: int| 0 <= k < l < i + 1 implies #[trigger] new_perm[k]
                != #[trigger] new_perm[l] by {
                if l == j {
                    assert(perm[k] < i);
                } else if k == j {
                    assert(perm[l - 1] < i);
                } else if l < j {
                } else if k < j {
                    assert(new_perm[l] == perm[l - 1]);
                } else {
                    assert(new_perm[l] == perm[l - 1]);
                    assert(new_perm[k] == perm[k - 1]);
                }
            }
            assert forall|k: int, l: int| 0 <= k < l < i + 1 implies #[trigger] item_order(
                new[k],
                new[l],
                column,
                ascending,
                listing_order,
            ) <= 0 && (item_order(new[k], new[l], column, ascending, listing_order) == 0
                ==> new_perm[k] < new_perm[l]) by {
                if l == j {
                    // new[l] is x; new[k] is an earlier prefix entry
                    assert(new[k] == mid[k]);
                    assert(new[j - 1] == mid[j - 1]);
                    assert(item_order(mid[j - 1], x, column, ascending, listing_order) <= 0);
                    if k < j - 1 {
                        assert(item_order(mid[k], mid[j - 1], column, ascending, listing_order)
                            <= 0);
                        lemma_item_order_transitive(
                            mid[k],
                            mid[j - 1],
                            x,
                            column,
                            ascending,
                            listing_order,
                        );
                    }
                    assert(perm[k] < i);
                } else if k == j {
                    // new[k] is x; new[l] is a shifted prefix entry
                    assert(new[l] == mid[l - 1]);
                    assert(item_order(mid[l - 1], x, column, ascending, listing_order) > 0);
                    lemma_item_order_antisymmetric(
                        mid[l - 1],
                        x,
                        column,
                        ascending,
                        listing_order,
                    );
                } else if l < j {
                    assert(new[k] == mid[k]);
                    assert(new[l] == mid[l]);
                } else if k < j {
                    assert(new[k] == mid[k]);
                    assert(new[l] == mid[l - 1]);
                    assert(new_perm[l] == perm[l - 1]);
                } else {
                    assert(new[k] == mid[k - 1]);
                    assert(new[l] == mid[l - 1]);
                    assert(new_perm[l] == perm[l - 1]);
                    assert(new_perm[k] == perm[k - 1]);
                }
            }
            if is_sorted(orig, column, ascending, listing_order) {
                assert(new =~= orig);
            }
            perm = new_perm;
        }
        i = i + 1;
    }
    proof {
        assert(is_stable_arrangement(files@, orig, perm, column, ascending, listing_order));
    }
}

/// In the Windows listing style a sorted listing has every folder before every
/// file, whichever column and direction it is sorted by.
pub proof fn lemma_windows_folders_first(
    s: Seq<FileItem>,
    column: SortColumn,
    ascending: bool,
)
    requires
        is_sorted(s, column, ascending, ListingOrder::Windows),
    ensures
        forall|i: int, j: int| 0 <= i < j < s.len() && s[j].is_dir ==> s[i].is_dir,
{
    assert forall|i: int, j: int| 0 <= i < j < s.len() && s[j].is_dir implies s[i].is_dir by {
        assert(item_order(s[i], s[j], column, ascending, ListingOrder::Windows) <= 0);
    }
}

/// In the Linux listing style, a listing sorted descending by a column is,
/// read backwards, sorted ascending by the same column.
pub proof fn lemma_descending_is_reversed_ascending(s: Seq<FileItem>, column: SortColumn)
    requires
        is_sorted(s, column, false, ListingOrder::Linux),
    ensures
        is_sorted(s.reverse(), column, true, ListingOrder::Linux),
{
    let r = s.reverse();
    assert forall|i: int, j: int| 0 <= i < j < r.len() implies #[trigger] item_order(
        r[i],
        r[j],
        column,
        true,
        ListingOrder::Linux,
    ) <= 0 by {
        let a = s.len() - 1 - j;
        let b = s.len() - 1 - i;
        assert(r[i] == s[b]);
        assert(r[j] == s[a]);
        assert(item_order(s[a], s[b], column, false, ListingOrder::Linux) <= 0);
        lemma_column_order_antisymmetric(s[a], s[b], column);
    }
}

} // verus!
