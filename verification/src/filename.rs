//! Validation of file and folder names the user submits (when creating or
//! renaming an entry), following the Windows naming rules.
use vstd::prelude::*;

use vstd::utf8::encode_utf8;

use crate::text::{chars_of, decimal_digits, decimal_text, trim, trimmed_of, uppercase_of, to_uppercase};

verus! {

/// The longest name accepted, in UTF-8 bytes.
pub const MAX_NAME_BYTES: usize = 255;

/// A char that may not appear in a name: one of `< > : " / \ | ? *` or a
/// control char below U+0020.
pub open spec fn is_forbidden_char(c: char) -> bool {
    ||| c == '<'
    ||| c == '>'
    ||| c == ':'
    ||| c == '"'
    ||| c == '/'
    ||| c == '\\'
    ||| c == '|'
    ||| c == '?'
    ||| c == '*'
    ||| (c as u32) < 0x20
}

/// The part of a name before its first '.', or the whole name when it has
/// none.
pub open spec fn base_name(s: Seq<char>) -> Seq<char>
    decreases s.len(),
{
    if s.len() == 0 {
        s
    } else if s[0] == '.' {
        Seq::empty()
    } else {
        seq![s[0]] + base_name(s.drop_first())
    }
}

/// The reserved device names CON, PRN, AUX, NUL, COM1..COM9 and LPT1..LPT9.
pub open spec fn is_reserved_device_name(u: Seq<char>) -> bool {
    ||| u == seq!['C', 'O', 'N']
    ||| u == seq!['P', 'R', 'N']
    ||| u == seq!['A', 'U', 'X']
    ||| u == seq!['N', 'U', 'L']
    ||| u.len() == 4 && ((u[0] == 'C' && u[1] == 'O' && u[2] == 'M') || (u[0] == 'L' && u[1]
        == 'P' && u[2] == 'T')) && '1' <= u[3] && u[3] <= '9'
}

/// The Windows device names that no file or folder may take as its base
/// name, whatever its case or extension.
pub open spec fn reserved_device_names() -> Seq<Seq<char>> {
    seq![
        seq!['C', 'O', 'N'],
        seq!['P', 'R', 'N'],
        seq!['A', 'U', 'X'],
        seq!['N', 'U', 'L'],
        seq!['C', 'O', 'M', '1'],
        seq!['C', 'O', 'M', '2'],
        seq!['C', 'O', 'M', '3'],
        seq!['C', 'O', 'M', '4'],
        seq!['C', 'O', 'M', '5'],
        seq!['C', 'O', 'M', '6'],
        seq!['C', 'O', 'M', '7'],
        seq!['C', 'O', 'M', '8'],
        seq!['C', 'O', 'M', '9'],
        seq!['L', 'P', 'T', '1'],
        seq!['L', 'P', 'T', '2'],
        seq!['L', 'P', 'T', '3'],
        seq!['L', 'P', 'T', '4'],
        seq!['L', 'P', 'T', '5'],
        seq!['L', 'P', 'T', '6'],
        seq!['L', 'P', 'T', '7'],
        seq!['L', 'P', 'T', '8'],
        seq!['L', 'P', 'T', '9'],
    ]
}

/// The device-name rule refuses exactly the names of the list: a name of the
/// list is refused, and no other name is.
pub proof fn lemma_reserved_names_are_the_list(u: Seq<char>)
    ensures
        is_reserved_device_name(u) <==> reserved_device_names().contains(u),
{
    let l = reserved_device_names();
    if l.contains(u) {
        let i = choose|i: int| 0 <= i < l.len() && l[i] == u;
        assert(0 <= i < 22);
    }
    if is_reserved_device_name(u) {
        if u.len() == 4 {
            let w = u[3];
            let k: int = if u[0] == 'C' { 4 } else { 13 };
            let j: int = k + (w as int - '1' as int);
            assert(l[j] =~= u);
        } else if u == seq!['C', 'O', 'N'] {
            assert(l[0] =~= u);
        } else if u == seq!['P', 'R', 'N'] {
            assert(l[1] =~= u);
        } else if u == seq!['A', 'U', 'X'] {
            assert(l[2] =~= u);
        } else {
            assert(l[3] =~= u);
        }
    }
}

/// The rules a submitted name must meet: not empty, at most 255 UTF-8 bytes,
/// not "." or "..", no leading or trailing space, no trailing dot, no
/// forbidden char, and a base name (before the first dot) whose upper-case
/// form is not a reserved device name.
pub open spec fn is_valid_submitted_name(s: Seq<char>) -> bool {
    &&& s.len() > 0
    &&& encode_utf8(s).len() <= MAX_NAME_BYTES
    &&& s != seq!['.']
    &&& s != seq!['.', '.']
    &&& s[0] != ' '
    &&& s[s.len() - 1] != ' '
    &&& s[s.len() - 1] != '.'
    &&& forall|i: int| 0 <= i < s.len() ==> !is_forbidden_char(#[trigger] s[i])
    &&& !is_reserved_device_name(uppercase_of(base_name(s)))
}

/// A name whose base name (before the first '.') upper-cases to a reserved
/// device name of the list is refused, whatever its extension.
pub proof fn lemma_reserved_names_refused(s: Seq<char>)
    requires
        reserved_device_names().contains(uppercase_of(base_name(s))),
    ensures
        !is_valid_submitted_name(s),
{
    lemma_reserved_names_are_the_list(uppercase_of(base_name(s)));
}

/// The number of bytes of the UTF-8 encoding of a char.
pub open spec fn char_utf8_width(c: char) -> int {
    if (c as u32) <= 0x7F {
        1
    } else if (c as u32) <= 0x7FF {
        2
    } else if (c as u32) <= 0xFFFF {
        3
    } else {
        4
    }
}

proof fn lemma_utf8_len_by_chars(s: Seq<char>)
    ensures
        s.len() > 0 ==> encode_utf8(s).len() == char_utf8_width(s[0]) + encode_utf8(
            s.drop_first(),
        ).len(),
        s.len() == 0 ==> encode_utf8(s).len() == 0,
{
    if s.len() > 0 {
        vstd::utf8::char_is_scalar(s[0]);
    }
}

fn char_width(c: char) -> (r: usize)
    ensures
        r as int == char_utf8_width(c),
{
    let v = c as u32;
    if v <= 0x7F {
        1
    } else if v <= 0x7FF {
        2
    } else if v <= 0xFFFF {
        3
    } else {
        4
    }
}

/// Whether the UTF-8 encoding of the chars takes more than `MAX_NAME_BYTES`
/// bytes.
fn exceeds_max_bytes(s: &Vec<char>) -> (r: bool)
    ensures
        r == (encode_utf8(s@).len() > MAX_NAME_BYTES),
{
    let mut i: usize = s.len();
    let mut total: usize = 0;
    assert(s@.skip(s@.len() as int) =~= Seq::<char>::empty());
    while i > 0 && total <= MAX_NAME_BYTES
        invariant
            i <= s@.len(),
            total as int == encode_utf8(s@.skip(i as int)).len(),
        decreases i,
    {
        let w = char_width(s[i - 1]);
        proof {
            let t = s@.skip(i - 1);
            lemma_utf8_len_by_chars(t);
            assert(t.drop_first() =~= s@.skip(i as int));
        }
        total = total + w;
        i = i - 1;
    }
    if total > MAX_NAME_BYTES {
        proof {
            lemma_utf8_len_suffix_bound(s@, i as int);
        }
        true
    } else {
        assert(s@.skip(0) =~= s@);
        false
    }
}

proof fn lemma_utf8_len_suffix_bound(s: Seq<char>, i: int)
    requires
        0 <= i <= s.len(),
    ensures
        encode_utf8(s).len() >= encode_utf8(s.skip(i)).len(),
    decreases i,
{
    if i > 0 {
        lemma_utf8_len_suffix_bound(s, i - 1);
        let t = s.skip(i - 1);
        lemma_utf8_len_by_chars(t);
        assert(t.drop_first() =~= s.skip(i));
    } else {
        assert(s.skip(0) =~= s);
    }
}

proof fn lemma_base_name_is_prefix(s: Seq<char>, k: int)
    requires
        0 <= k <= s.len(),
        forall|m: int| 0 <= m < k ==> s[m] != '.',
        k == s.len() || s[k] == '.',
    ensures
        base_name(s) == s.subrange(0, k),
    decreases k,
{
    if k == 0 {
        assert(s.subrange(0, 0) =~= Seq::<char>::empty());
        if s.len() > 0 {
            assert(s[0] == '.');
        }
    } else {
        lemma_base_name_is_prefix(s.drop_first(), k - 1);
        assert(s.subrange(0, k) =~= seq![s[0]] + s.drop_first().subrange(0, k - 1));
    }
}

fn forbidden_char(c: char) -> (r: bool)
    ensures
        r == is_forbidden_char(c),
{
    match c {
        '<' | '>' | ':' | '"' | '/' | '\\' | '|' | '?' | '*' => true,
        _ => (c as u32) < 0x20,
    }
}

fn is_reserved_chars(u: &Vec<char>) -> (r: bool)
    ensures
        r == is_reserved_device_name(u@),
{
    let n = u.len();
    if n == 3 {
        let (a, b, c) = (u[0], u[1], u[2]);
        let r = (a == 'C' && b == 'O' && c == 'N') || (a == 'P' && b == 'R' && c == 'N') || (a
            == 'A' && b == 'U' && c == 'X') || (a == 'N' && b == 'U' && c == 'L');
        proof {
            if a == 'C' && b == 'O' && c == 'N' {
                assert(u@ =~= seq!['C', 'O', 'N']);
            }
            if a == 'P' && b == 'R' && c == 'N' {
                assert(u@ =~= seq!['P', 'R', 'N']);
            }
            if a == 'A' && b == 'U' && c == 'X' {
                assert(u@ =~= seq!['A', 'U', 'X']);
            }
            if a == 'N' && b == 'U' && c == 'L' {
                assert(u@ =~= seq!['N', 'U', 'L']);
            }
        }
        r
    } else if n == 4 {
        let (a, b, c, d) = (u[0], u[1], u[2], u[3]);
        ((a == 'C' && b == 'O' && c == 'M') || (a == 'L' && b == 'P' && c == 'T')) && '1' <= d
            && d <= '9'
    } else {
        proof {
            assert(seq!['C', 'O', 'N'].len() == 3);
            assert(seq!['P', 'R', 'N'].len() == 3);
            assert(seq!['A', 'U', 'X'].len() == 3);
            assert(seq!['N', 'U', 'L'].len() == 3);
        }
        false
    }
}

/// Whether a submitted file or folder name meets the Windows naming rules
/// (`is_valid_submitted_name`).
pub fn is_submitted_filename_valid(name: &str) -> (r: bool)
    ensures
        r == is_valid_submitted_name(name@),
        reserved_device_names().contains(uppercase_of(base_name(name@))) ==> !r,
{
    proof {
        lemma_reserved_names_are_the_list(uppercase_of(base_name(name@)));
    }
    let s = chars_of(name);
    let n = s.len();
    if n == 0 {
        return false;
    }
    if exceeds_max_bytes(&s) {
        return false;
    }
    if (n == 1 && s[0] == '.') || (n == 2 && s[0] == '.' && s[1] == '.') {
        proof {
            if n == 1 {
                assert(s@ =~= seq!['.']);
            } else {
                assert(s@ =~= seq!['.', '.']);
            }
        }
        return false;
    }
    proof {
        if s@ == seq!['.'] {
            assert(s@[0] == '.');
        }
        if s@ == seq!['.', '.'] {
            assert(s@[1] == '.');
        }
    }
    if s[0] == ' ' || s[n - 1] == ' ' || s[n - 1] == '.' {
        return false;
    }
    let mut i: usize = 0;
    let mut first_dot: usize = n;
    while i < n
        invariant
            s@ == name@,
            n == s@.len(),
            i <= n,
            first_dot <= n,
            forall|m: int| 0 <= m < i ==> !is_forbidden_char(#[trigger] s@[m]),
            first_dot == n ==> forall|m: int| 0 <= m < i ==> s@[m] != '.',
            first_dot < n ==> first_dot < i && s@[first_dot as int] == '.' && forall|m: int|
                0 <= m < first_dot ==> s@[m] != '.',
        decreases n - i,
    {
        let c = s[i];
        if forbidden_char(c) {
            return false;
        }
        if c == '.' && first_dot == n {
            first_dot = i;
        }
        i = i + 1;
    }
    proof {
        lemma_base_name_is_prefix(name@, first_dot as int);
    }
    let base = name.substring_char(0, first_dot);
    let upper = to_uppercase(base);
    let u = chars_of(upper.as_str());
    !is_reserved_chars(&u)
}

/// What becomes of a rename the user submits.
#[derive(Debug)]
pub enum RenameOutcome {
    /// The trimmed name is empty: the rename is dropped.
    Cancel,
    /// The trimmed name breaks a naming rule: editing goes on with this text
    /// and the error shown.
    Invalid(String),
    /// The entry is renamed to this (trimmed) name.
    Rename(String),
}

/// Decides a submitted rename: the text is trimmed; an empty result cancels,
/// an invalid one keeps the editor open with an error, a valid one renames.
pub fn decide_rename(new_name: &str) -> (r: RenameOutcome)
    ensures
        trimmed_of(new_name@).len() == 0 ==> r is Cancel,
        trimmed_of(new_name@).len() > 0 ==> match r {
            RenameOutcome::Cancel => false,
            RenameOutcome::Invalid(t) => t@ == trimmed_of(new_name@) && !is_valid_submitted_name(t@),
            RenameOutcome::Rename(t) => t@ == trimmed_of(new_name@) && is_valid_submitted_name(t@),
        },
{
    let trimmed = trim(new_name);
    if trimmed.is_empty() {
        return RenameOutcome::Cancel;
    }
    let owned = trimmed.to_owned();
    if is_submitted_filename_valid(owned.as_str()) {
        RenameOutcome::Rename(owned)
    } else {
        RenameOutcome::Invalid(owned)
    }
}

/// The name tried for a new folder on the given attempt: "New Folder" first,
/// then "New Folder (2)", "New Folder (3)", and so on.
pub fn new_folder_name(attempt: u64) -> (r: String)
    ensures
        attempt <= 1 ==> r@ == "New Folder"@,
        attempt > 1 ==> r@ == "New Folder ("@ + decimal_digits(attempt as nat) + ")"@,
{
    if attempt <= 1 {
        String::from_str("New Folder")
    } else {
        let mut r = String::from_str("New Folder (");
        let d = decimal_text(attempt);
        r.append(d.as_str());
        r.append(")");
        r
    }
}

/// The name tried for a new text file on the given attempt: "New File.txt"
/// first, then "New File (2).txt", "New File (3).txt", and so on.
pub fn new_file_name(attempt: u64) -> (r: String)
    ensures
        attempt <= 1 ==> r@ == "New File.txt"@,
        attempt > 1 ==> r@ == "New File ("@ + decimal_digits(attempt as nat) + ").txt"@,
{
    if attempt <= 1 {
        String::from_str("New File.txt")
    } else {
        let mut r = String::from_str("New File (");
        let d = decimal_text(attempt);
        r.append(d.as_str());
        r.append(").txt");
        r
    }
}

/// The rename editor's state: the entry being renamed (or the folder a new
/// entry would go to), the proposed name, and whether the editor takes the
/// focus and shows the naming error.
#[derive(Debug)]
pub struct RenameState {
    pub path: String,
    pub new_name: String,
    pub should_focus: bool,
    pub validation_error_show: bool,
}

/// What becomes of a new folder or file with a proposed name.
#[derive(Debug)]
pub enum NewEntryPlan {
    /// The name is valid: the entry is created at the path, then offered for
    /// renaming.
    Create(RenameState),
    /// The name is invalid: nothing is created, and the rename editor opens on
    /// the parent folder with the error shown.
    Reject(RenameState),
}

/// Decides what happens to a new entry named `name` at `path` in the folder
/// `base`.
pub fn plan_new_entry(base: String, path: String, name: String) -> (r: NewEntryPlan)
    ensures
        is_valid_submitted_name(name@) ==> r == NewEntryPlan::Create(
            RenameState { path, new_name: name, should_focus: true, validation_error_show: false },
        ),
        !is_valid_submitted_name(name@) ==> r == NewEntryPlan::Reject(
            RenameState { path: base, new_name: name, should_focus: true, validation_error_show: true },
        ),
{
    if is_submitted_filename_valid(name.as_str()) {
        NewEntryPlan::Create(
            RenameState { path, new_name: name, should_focus: true, validation_error_show: false },
        )
    } else {
        NewEntryPlan::Reject(
            RenameState { path: base, new_name: name, should_focus: true, validation_error_show: true },
        )
    }
}

/// The rename editor after a submitted rename: a cancelled or carried-out
/// rename closes it; an invalid name keeps it open with the trimmed text, the
/// focus and the error shown.
pub fn rename_state_after(state: Option<RenameState>, outcome: &RenameOutcome) -> (r: Option<
    RenameState,
>)
    ensures
        match outcome {
            RenameOutcome::Invalid(t) => match state {
                Some(s) => r == Some(
                    RenameState {
                        path: s.path,
                        new_name: *t,
                        should_focus: true,
                        validation_error_show: true,
                    },
                ),
                None => r is None,
            },
            _ => r is None,
        },
{
    match outcome {
        RenameOutcome::Invalid(t) => match state {
            Some(s) => Some(
                RenameState {
                    path: s.path,
                    new_name: t.clone(),
                    should_focus: true,
                    validation_error_show: true,
                },
            ),
            None => None,
        },
        _ => None,
    }
}

} // verus!
