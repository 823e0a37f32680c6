//! The configuration model: document versions, defaults, tag and favorite
//! snapshots, and the checks a loaded document must pass.
//!
//! Reading and writing the files (TOML text, older binary snapshots) happens
//! outside this module; here are the decisions made on what was read and the
//! values that are written.
use vstd::prelude::*;

use crate::sorting::SortColumn;
use crate::text::{chars_of, decimal_digits, decimal_text};

verus! {

/// The version number written into every configuration document.
pub const CONFIG_VERSION: u32 = 1;

/// The configuration version used when a document does not carry one.
pub fn default_config_version() -> (v: u32)
    ensures
        v == CONFIG_VERSION,
{
    CONFIG_VERSION
}

/// The version a document without a `version` field is read as.
pub fn default_version() -> (v: u32)
    ensures
        v == CONFIG_VERSION,
{
    CONFIG_VERSION
}

/// The value of a boolean setting that is on unless the document says
/// otherwise.
pub fn default_true() -> (b: bool)
    ensures
        b,
{
    true
}

/// The id of the first tag group, when a tags document does not say.
pub fn default_next_tag_group_id() -> (id: u64)
    ensures
        id == 1,
{
    1
}

/// The interface language used when the settings do not name one.
pub fn default_language() -> (s: String)
    ensures
        s@ == "en-US"@,
{
    String::from_str("en-US")
}

/// The column a listing is sorted by when the settings do not say.
pub fn default_sort_column() -> (c: SortColumn)
    ensures
        c is Name,
{
    SortColumn::Name
}

/// A column of the item viewer besides the name column, which is always
/// first.
#[derive(Clone, Copy, Debug, PartialEq, Eq, Structural)]
pub enum ItemViewerHeaderColumn {
    Type,
    Size,
    Modified,
    Created,
    Usage,
    Deleted,
}

/// The default columns of a folder listing: type, size, modified, created.
pub fn default_file_order() -> (v: Vec<ItemViewerHeaderColumn>)
    ensures
        v@ == seq![
            ItemViewerHeaderColumn::Type,
            ItemViewerHeaderColumn::Size,
            ItemViewerHeaderColumn::Modified,
            ItemViewerHeaderColumn::Created,
        ],
{
    let v = vec![
        ItemViewerHeaderColumn::Type,
        ItemViewerHeaderColumn::Size,
        ItemViewerHeaderColumn::Modified,
        ItemViewerHeaderColumn::Created,
    ];
    assert(v@ =~= seq![
        ItemViewerHeaderColumn::Type,
        ItemViewerHeaderColumn::Size,
        ItemViewerHeaderColumn::Modified,
        ItemViewerHeaderColumn::Created,
    ]);
    v
}

/// The default columns of the drive listing: type, size, usage.
pub fn default_drive_order() -> (v: Vec<ItemViewerHeaderColumn>)
    ensures
        v@ == seq![
            ItemViewerHeaderColumn::Type,
            ItemViewerHeaderColumn::Size,
            ItemViewerHeaderColumn::Usage,
        ],
{
    let v = vec![
        ItemViewerHeaderColumn::Type,
        ItemViewerHeaderColumn::Size,
        ItemViewerHeaderColumn::Usage,
    ];
    assert(v@ =~= seq![
        ItemViewerHeaderColumn::Type,
        ItemViewerHeaderColumn::Size,
        ItemViewerHeaderColumn::Usage,
    ]);
    v
}

/// The default columns of the recycle-bin listing: type, size, deleted,
/// created.
pub fn default_recycle_order() -> (v: Vec<ItemViewerHeaderColumn>)
    ensures
        v@ == seq![
            ItemViewerHeaderColumn::Type,
            ItemViewerHeaderColumn::Size,
            ItemViewerHeaderColumn::Deleted,
            ItemViewerHeaderColumn::Created,
        ],
{
    let v = vec![
        ItemViewerHeaderColumn::Type,
        ItemViewerHeaderColumn::Size,
        ItemViewerHeaderColumn::Deleted,
        ItemViewerHeaderColumn::Created,
    ];
    assert(v@ =~= seq![
        ItemViewerHeaderColumn::Type,
        ItemViewerHeaderColumn::Size,
        ItemViewerHeaderColumn::Deleted,
        ItemViewerHeaderColumn::Created,
    ]);
    v
}

/// The column orders of the three listings: folders, the drive list and the
/// recycle bin.
#[derive(Debug)]
pub struct ColumnOrders {
    pub file: Vec<ItemViewerHeaderColumn>,
    pub drive: Vec<ItemViewerHeaderColumn>,
    pub recycle: Vec<ItemViewerHeaderColumn>,
}

impl Default for ColumnOrders {
    fn default() -> (c: Self)
        ensures
            c.file@ == seq![
                ItemViewerHeaderColumn::Type,
                ItemViewerHeaderColumn::Size,
                ItemViewerHeaderColumn::Modified,
                ItemViewerHeaderColumn::Created,
            ],
            c.drive@ == seq![
                ItemViewerHeaderColumn::Type,
                ItemViewerHeaderColumn::Size,
                ItemViewerHeaderColumn::Usage,
            ],
            c.recycle@ == seq![
                ItemViewerHeaderColumn::Type,
                ItemViewerHeaderColumn::Size,
                ItemViewerHeaderColumn::Deleted,
                ItemViewerHeaderColumn::Created,
            ],
    {
        ColumnOrders {
            file: default_file_order(),
            drive: default_drive_order(),
            recycle: default_recycle_order(),
        }
    }
}

impl ColumnOrders {
    /// The order of the listing shown: the drive list when the view shows the
    /// drives, else the recycle bin when it shows the recycle bin, else a
    /// folder.
    pub open spec fn order_shown(&self, is_drive_view: bool, is_recycle_bin_view: bool) -> Seq<
        ItemViewerHeaderColumn,
    > {
        if is_drive_view {
            self.drive@
        } else if is_recycle_bin_view {
            self.recycle@
        } else {
            self.file@
        }
    }

    /// The column order of the listing shown (`order_shown`).
    pub fn order(&self, is_drive_view: bool, is_recycle_bin_view: bool) -> (r: &Vec<
        ItemViewerHeaderColumn,
    >)
        ensures
            r@ == self.order_shown(is_drive_view, is_recycle_bin_view),
    {
        if is_drive_view {
            &self.drive
        } else if is_recycle_bin_view {
            &self.recycle
        } else {
            &self.file
        }
    }

    /// Stores a new column order for the listing shown; the other two orders
    /// are kept.
    pub fn set_order(
        &mut self,
        is_drive_view: bool,
        is_recycle_bin_view: bool,
        order: Vec<ItemViewerHeaderColumn>,
    )
        ensures
            final(self).order_shown(is_drive_view, is_recycle_bin_view) == order@,
            is_drive_view ==> final(self).file@ == old(self).file@ && final(self).recycle@
                == old(self).recycle@,
            !is_drive_view && is_recycle_bin_view ==> final(self).file@ == old(self).file@
                && final(self).drive@ == old(self).drive@,
            !is_drive_view && !is_recycle_bin_view ==> final(self).drive@ == old(self).drive@
                && final(self).recycle@ == old(self).recycle@,
    {
        if is_drive_view {
            self.drive = order;
        } else if is_recycle_bin_view {
            self.recycle = order;
        } else {
            self.file = order;
        }
    }
}

/// Declares `std::io::Error`, which `SettingsError::Io` carries without
/// looking inside it.
#[verifier::external_type_specification]
#[verifier::external_body]
pub struct ExIoError(std::io::Error);

/// Why loading or saving a configuration document failed.
#[derive(Debug)]
pub enum SettingsError {
    /// Reading or writing a file failed.
    Io(std::io::Error),
    /// A document could not be parsed or written; the text says why.
    Parse(String),
    /// A document carries a version this program does not read.
    UnsupportedVersion(u32),
}

impl From<std::io::Error> for SettingsError {
    fn from(e: std::io::Error) -> (r: Self) {
        SettingsError::Io(e)
    }
}

impl vstd::std_specs::convert::FromSpecImpl<std::io::Error> for SettingsError {
    open spec fn obeys_from_spec() -> bool {
        true
    }

    open spec fn from_spec(v: std::io::Error) -> SettingsError {
        SettingsError::Io(v)
    }
}

/// Formats an I/O error with its `Display` impl. The text depends on the
/// operating system's error messages, so nothing is claimed of it.
#[verifier::external_body]
fn io_error_text(e: &std::io::Error) -> String {
    format!("{e}")
}

impl SettingsError {
    /// The message shown for the error: "I/O error: …", "parse error: …" or
    /// "unsupported version N".
    pub fn message(&self) -> (r: String)
        ensures
            match self {
                SettingsError::Io(_) => exists|t: Seq<char>| r@ == "I/O error: "@ + t,
                SettingsError::Parse(e) => r@ == "parse error: "@ + e@,
                SettingsError::UnsupportedVersion(v) => r@ == "unsupported version "@
                    + decimal_digits(*v as nat),
            },
    {
        match self {
            SettingsError::Io(e) => {
                let mut r = String::from_str("I/O error: ");
                let t = io_error_text(e);
                r.append(t.as_str());
                r
            },
            SettingsError::Parse(e) => {
                let mut r = String::from_str("parse error: ");
                r.append(e.as_str());
                r
            },
            SettingsError::UnsupportedVersion(v) => {
                let mut r = String::from_str("unsupported version ");
                let d = decimal_text(*v as u64);
                r.append(d.as_str());
                r
            },
        }
    }
}

/// Whether a document version is one this program reads.
pub open spec fn version_supported(v: u32) -> bool {
    v == CONFIG_VERSION
}

/// Accepts the supported document version and refuses any other with
/// `UnsupportedVersion`.
pub fn version(v: u32) -> (r: Result<(), SettingsError>)
    ensures
        r is Ok <==> version_supported(v),
        r matches Err(e) ==> e == SettingsError::UnsupportedVersion(v),
{
    if v == CONFIG_VERSION {
        Ok(())
    } else {
        Err(SettingsError::UnsupportedVersion(v))
    }
}

/// The light or dark look of the interface.
#[derive(Clone, Copy, Debug, PartialEq, Eq, Structural)]
pub enum ThemeMode {
    Light,
    Dark,
}

/// The theme a stored theme name selects: "light" gives the light theme;
/// anything else, or no name, gives the dark one.
pub fn theme_from_name(name: Option<&str>) -> (m: ThemeMode)
    ensures
        name matches Some(n) && n@ == "light"@ ==> m is Light,
        !(name matches Some(n) && n@ == "light"@) ==> m is Dark,
{
    match name {
        Some(n) => {
            let light = String::from_str("light");
            let given = n.to_owned();
            if given == light {
                ThemeMode::Light
            } else {
                ThemeMode::Dark
            }
        },
        None => ThemeMode::Dark,
    }
}

/// The stored name of a theme: "light" or "dark".
pub fn theme_name(mode: ThemeMode) -> (s: String)
    ensures
        mode is Light ==> s@ == "light"@,
        mode is Dark ==> s@ == "dark"@,
{
    match mode {
        ThemeMode::Light => String::from_str("light"),
        ThemeMode::Dark => String::from_str("dark"),
    }
}

/// The `version` entry of a theme document, as found.
#[derive(Debug)]
pub enum VersionField {
    /// The document has no `version` entry.
    Missing,
    /// The entry is an integer.
    Integer(i64),
    /// The entry is some other kind of value.
    Other,
}

/// The version a theme document declares: a missing entry counts as version
/// 1, a non-negative integer that fits a `u32` is taken as it is, anything
/// else is a parse error. The version must then be a supported one.
pub open spec fn theme_version_result(field: VersionField) -> Option<u32> {
    match field {
        VersionField::Missing => Some(1),
        VersionField::Integer(v) => if 0 <= v <= u32::MAX {
            Some(v as u32)
        } else {
            None
        },
        VersionField::Other => None,
    }
}

/// Checks the `version` entry of a theme document. A malformed entry is a
/// `Parse` error; a well-formed but unsupported version is
/// `UnsupportedVersion`.
pub fn check_theme_version(field: VersionField) -> (r: Result<u32, SettingsError>)
    ensures
        (match theme_version_result(field) {
            Some(v) => if version_supported(v) {
                r matches Ok(w) && w == v
            } else {
                r matches Err(e) && e == SettingsError::UnsupportedVersion(v)
            },
            None => r matches Err(SettingsError::Parse(m))
                && m@ == "theme version must be a non-negative integer"@,
        }),
{
    let v: u32 = match field {
        VersionField::Missing => 1,
        VersionField::Integer(v) => {
            if 0 <= v && v <= u32::MAX as i64 {
                v as u32
            } else {
                return Err(
                    SettingsError::Parse(
                        String::from_str("theme version must be a non-negative integer"),
                    ),
                );
            }
        },
        VersionField::Other => {
            return Err(
                SettingsError::Parse(
                    String::from_str("theme version must be a non-negative integer"),
                ),
            );
        },
    };
    match version(v) {
        Ok(()) => Ok(v),
        Err(e) => Err(e),
    }
}

/// One group of tagged paths.
#[derive(Clone, Debug)]
pub struct TagGroupSnapshot {
    pub id: u64,
    pub name: String,
    pub color: [u8; 4],
    pub items: Vec<String>,
}

/// All tag groups, with the id the next new group will get.
#[derive(Clone, Debug)]
pub struct TagsSnapshot {
    pub version: u32,
    pub next_group_id: u64,
    pub groups: Vec<TagGroupSnapshot>,
}

/// What loading a tags document with these fields gives: the snapshot when
/// the version is supported, `UnsupportedVersion` otherwise.
pub open spec fn tags_document_result(
    version: u32,
    next_group_id: u64,
    groups: Seq<TagGroupSnapshot>,
) -> Option<(u32, u64, Seq<TagGroupSnapshot>)> {
    if version_supported(version) {
        Some((version, next_group_id, groups))
    } else {
        None
    }
}

/// Turns the fields of a loaded tags document into a snapshot, after checking
/// its version.
pub fn tags_from_document(
    version: u32,
    next_group_id: u64,
    groups: Vec<TagGroupSnapshot>,
) -> (r: Result<TagsSnapshot, SettingsError>)
    ensures
        (match tags_document_result(version, next_group_id, groups@) {
            Some(t) => r matches Ok(s) && s.version == t.0 && s.next_group_id == t.1 && s.groups@
                == t.2,
            None => r matches Err(e) && e == SettingsError::UnsupportedVersion(version),
        }),
{
    match crate::config::version(version) {
        Ok(()) => Ok(TagsSnapshot { version, next_group_id, groups }),
        Err(e) => Err(e),
    }
}

/// The snapshot migrated from an older binary tags file: it is stamped with
/// the current version and keeps the id counter and groups.
pub fn tags_from_binary(next_group_id: u64, groups: Vec<TagGroupSnapshot>) -> (s: TagsSnapshot)
    ensures
        s.version == CONFIG_VERSION,
        s.next_group_id == next_group_id,
        s.groups@ == groups@,
{
    TagsSnapshot { version: CONFIG_VERSION, next_group_id, groups }
}

/// The snapshot as it is written to disk: stamped with the current version,
/// id counter and groups unchanged.
pub fn tags_for_save(snapshot: TagsSnapshot) -> (s: TagsSnapshot)
    ensures
        s.version == CONFIG_VERSION,
        s.next_group_id == snapshot.next_group_id,
        s.groups@ == snapshot.groups@,
{
    TagsSnapshot { version: CONFIG_VERSION, ..snapshot }
}

/// The favorites a loaded favorites document gives, after checking its
/// version.
pub fn favorites_from_document(version: u32, favorites: Vec<String>) -> (r: Result<
    Vec<String>,
    SettingsError,
>)
    ensures
        version_supported(version) ==> (r matches Ok(f) && f@ == favorites@),
        !version_supported(version) ==> (r matches Err(e) && e
            == SettingsError::UnsupportedVersion(version)),
{
    match crate::config::version(version) {
        Ok(()) => Ok(favorites),
        Err(e) => Err(e),
    }
}

/// Saving a tags snapshot and loading the document back gives the same
/// id counter and groups, at the current version.
pub proof fn lemma_saved_tags_load_back(next_group_id: u64, groups: Seq<TagGroupSnapshot>)
    ensures
        tags_document_result(CONFIG_VERSION, next_group_id, groups) == Some(
            (CONFIG_VERSION, next_group_id, groups),
        ),
{
}

/// A document stamped with any version but the current one is refused, so a
/// document written by a newer program is never read as if it were current.
pub proof fn lemma_other_versions_refused(v: u32, next_group_id: u64, groups: Seq<TagGroupSnapshot>)
    requires
        v != CONFIG_VERSION,
    ensures
        tags_document_result(v, next_group_id, groups) is None,
        !version_supported(v),
{
}

/// The file that holds the favorites of a drive: `drive_<letter>.toml`.
pub fn favorites_file_name(drive: char) -> (s: String)
    ensures
        s@ == "drive_"@ + seq![drive] + ".toml"@,
{
    let mut s = String::from_str("drive_");
    let d = one_char_text(drive);
    s.append(d.as_str());
    s.append(".toml");
    s
}

/// The older binary file that held the favorites of a drive:
/// `drive_<letter>.bin`.
pub fn old_favorites_file_name(drive: char) -> (s: String)
    ensures
        s@ == "drive_"@ + seq![drive] + ".bin"@,
{
    let mut s = String::from_str("drive_");
    let d = one_char_text(drive);
    s.append(d.as_str());
    s.append(".bin");
    s
}

/// The other theme: light becomes dark and dark becomes light.
pub open spec fn other_theme(mode: ThemeMode) -> ThemeMode {
    match mode {
        ThemeMode::Light => ThemeMode::Dark,
        ThemeMode::Dark => ThemeMode::Light,
    }
}

/// Switches between the light and the dark theme.
pub fn toggled_theme(mode: ThemeMode) -> (m: ThemeMode)
    ensures
        m == other_theme(mode),
{
    match mode {
        ThemeMode::Light => ThemeMode::Dark,
        ThemeMode::Dark => ThemeMode::Light,
    }
}

/// Switching the theme twice gives back the original theme.
pub proof fn lemma_theme_toggle_involutive(mode: ThemeMode)
    ensures
        other_theme(other_theme(mode)) == mode,
        other_theme(mode) != mode,
{
}

/// Whether `s` begins with `p`.
pub open spec fn has_prefix(s: Seq<char>, p: Seq<char>) -> bool {
    p.len() <= s.len() && s.take(p.len() as int) == p
}

/// The interface language chosen for a system locale: Japanese, Indonesian
/// and Chinese locales (by their language prefix) get their translation,
/// every other locale English. The Hong Kong and Taiwan Chinese entries are
/// checked after the general Chinese prefix, so they select the general
/// Chinese translation too.
pub open spec fn locale_for_system(s: Seq<char>) -> Seq<char> {
    if has_prefix(s, seq!['j', 'a']) {
        seq!['j', 'a', '-', 'J', 'P']
    } else if has_prefix(s, seq!['i', 'd']) {
        seq!['i', 'd', '-', 'I', 'D']
    } else if has_prefix(s, seq!['z', 'h']) {
        seq!['z', 'h', '-', 'C', 'N']
    } else if has_prefix(s, seq!['z', 'h', '-', 'H', 'K']) {
        seq!['z', 'h', '-', 'H', 'K']
    } else if has_prefix(s, seq!['z', 'h', '-', 'T', 'W']) {
        seq!['z', 'h', '-', 'T', 'W']
    } else {
        seq!['e', 'n', '-', 'U', 'S']
    }
}

fn starts_with_chars(s: &Vec<char>, p: &Vec<char>) -> (b: bool)
    ensures
        b == has_prefix(s@, p@),
{
    if p.len() > s.len() {
        return false;
    }
    let mut i: usize = 0;
    while i < p.len()
        invariant
            p@.len() <= s@.len(),
            i <= p@.len(),
            forall|k: int| 0 <= k < i ==> s@[k] == p@[k],
        decreases p@.len() - i,
    {
        if s[i] != p[i] {
            assert(s@.take(p@.len() as int)[i as int] == s@[i as int]);
            return false;
        }
        i = i + 1;
    }
    assert(s@.take(p@.len() as int) =~= p@);
    true
}

fn chars2(a: char, b: char) -> (v: Vec<char>)
    ensures
        v@ == seq![a, b],
{
    let v = vec![a, b];
    assert(v@ =~= seq![a, b]);
    v
}

fn chars5(a: char, b: char, c: char, d: char, e: char) -> (v: Vec<char>)
    ensures
        v@ == seq![a, b, c, d, e],
{
    let v = vec![a, b, c, d, e];
    assert(v@ =~= seq![a, b, c, d, e]);
    v
}

fn locale_text(a: char, b: char, c: char, d: char, e: char) -> (s: String)
    ensures
        s@ == seq![a, b, '-', d, e],
        c == '-' ==> s@ == seq![a, b, c, d, e],
{
    let mut s = String::new();
    let parts = [a, b, '-', d, e];
    let mut i: usize = 0;
    while i < 5
        invariant
            i <= 5,
            parts@ == seq![a, b, '-', d, e],
            s@ == parts@.take(i as int),
        decreases 5 - i,
    {
        let t = one_char_text(parts[i]);
        s.append(t.as_str());
        i = i + 1;
        assert(s@ =~= parts@.take(i as int));
    }
    assert(parts@.take(5) =~= parts@);
    s
}

/// Makes a one-char string with `char::to_string`; the result is claimed to
/// hold exactly that char.
#[verifier::external_body]
fn one_char_text(c: char) -> (s: String)
    ensures
        s@ == seq![c],
{
    c.to_string()
}

/// The interface language for a system locale (`locale_for_system`).
pub fn default_locale(system_locale: &str) -> (r: String)
    ensures
        r@ == locale_for_system(system_locale@),
{
    let s = chars_of(system_locale);
    if starts_with_chars(&s, &chars2('j', 'a')) {
        locale_text('j', 'a', '-', 'J', 'P')
    } else if starts_with_chars(&s, &chars2('i', 'd')) {
        locale_text('i', 'd', '-', 'I', 'D')
    } else if starts_with_chars(&s, &chars2('z', 'h')) {
        locale_text('z', 'h', '-', 'C', 'N')
    } else if starts_with_chars(&s, &chars5('z', 'h', '-', 'H', 'K')) {
        locale_text('z', 'h', '-', 'H', 'K')
    } else if starts_with_chars(&s, &chars5('z', 'h', '-', 'T', 'W')) {
        locale_text('z', 'h', '-', 'T', 'W')
    } else {
        locale_text('e', 'n', '-', 'U', 'S')
    }
}

/// The language the interface uses: the saved one, or the system's default
/// when none is saved.
pub fn interface_language(saved: &str, system_default: &str) -> (r: String)
    ensures
        saved@.len() == 0 ==> r@ == system_default@,
        saved@.len() > 0 ==> r@ == saved@,
{
    if saved.is_empty() {
        system_default.to_owned()
    } else {
        saved.to_owned()
    }
}

/// Calls `sys_locale::get_locale`, which reads the preferred locale of the
/// system. The result depends on the machine, so nothing is claimed of it.
#[verifier::external_body]
fn system_locale() -> Option<String> {
    sys_locale::get_locale()
}

/// The interface language at start-up for a saved language and the locale
/// the system reports: the saved language when there is one, else the default
/// for the system's locale, a system that reports none counting as "en-US".
pub open spec fn startup_language_for(saved: Seq<char>, system: Option<String>) -> Seq<char> {
    if saved.len() > 0 {
        saved
    } else {
        match system {
            Some(l) => locale_for_system(l@),
            None => locale_for_system("en-US"@),
        }
    }
}

/// Chooses the interface language from the saved one and the locale the
/// system reported (`startup_language_for`).
pub fn language_for(saved: &str, system: Option<String>) -> (r: String)
    ensures
        r@ == startup_language_for(saved@, system),
{
    let fallback = match system {
        Some(l) => default_locale(l.as_str()),
        None => default_locale("en-US"),
    };
    interface_language(saved, fallback.as_str())
}

/// The interface language at start-up, from the saved language and the
/// locale the system reports now (`language_for`).
pub fn startup_language(saved: &str) -> (r: String)
    ensures
        exists|system: Option<String>| r@ == startup_language_for(saved@, system),
{
    let system = system_locale();
    let r = language_for(saved, system);
    assert(r@ == startup_language_for(saved@, system));
    r
}

} // verus!
