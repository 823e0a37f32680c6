use eden_explorer::config::{
    check_theme_version, default_config_version, default_drive_order, default_file_order,
    default_language, default_locale, default_next_tag_group_id, default_recycle_order,
    default_sort_column, default_true, default_version, favorites_file_name, language_for, startup_language,
    favorites_from_document, interface_language, old_favorites_file_name, tags_for_save,
    tags_from_binary, tags_from_document, theme_from_name, theme_name, toggled_theme, version,
    ItemViewerHeaderColumn, SettingsError, TagGroupSnapshot, TagsSnapshot, ThemeMode,
    VersionField, CONFIG_VERSION,
};
use eden_explorer::config::ColumnOrders;
use eden_explorer::sorting::SortColumn;

type C = ItemViewerHeaderColumn;

fn group(id: u64, name: &str, items: &[&str]) -> TagGroupSnapshot {
    TagGroupSnapshot {
        id,
        name: name.to_string(),
        color: [10, 20, 30, 255],
        items: items.iter().map(|s| s.to_string()).collect(),
    }
}

#[test]
fn defaults_match_the_current_document_version() {
    assert_eq!(CONFIG_VERSION, 1);
    assert_eq!(default_config_version(), 1);
    assert_eq!(default_version(), 1);
    assert!(default_true());
    assert_eq!(default_next_tag_group_id(), 1);
    assert_eq!(default_language(), "en-US");
    assert_eq!(default_sort_column(), SortColumn::Name);
}

#[test]
fn default_column_orders() {
    assert_eq!(default_file_order(), vec![C::Type, C::Size, C::Modified, C::Created]);
    assert_eq!(default_drive_order(), vec![C::Type, C::Size, C::Usage]);
    assert_eq!(default_recycle_order(), vec![C::Type, C::Size, C::Deleted, C::Created]);
}

#[test]
fn only_the_current_version_is_accepted() {
    assert!(version(1).is_ok());
    match version(2) {
        Err(SettingsError::UnsupportedVersion(2)) => {}
        other => panic!("unexpected {other:?}"),
    }
    match version(0) {
        Err(SettingsError::UnsupportedVersion(0)) => {}
        other => panic!("unexpected {other:?}"),
    }
}

#[test]
fn error_messages() {
    assert_eq!(SettingsError::Parse("bad key".to_string()).message(), "parse error: bad key");
    assert_eq!(SettingsError::UnsupportedVersion(7).message(), "unsupported version 7");
    let io = SettingsError::from(std::io::Error::new(std::io::ErrorKind::Other, "disk gone"));
    assert_eq!(io.message(), "I/O error: disk gone");
}

#[test]
fn theme_names_round_trip() {
    assert_eq!(theme_from_name(Some("light")), ThemeMode::Light);
    assert_eq!(theme_from_name(Some("dark")), ThemeMode::Dark);
    assert_eq!(theme_from_name(Some("Light")), ThemeMode::Dark);
    assert_eq!(theme_from_name(None), ThemeMode::Dark);
    assert_eq!(theme_name(ThemeMode::Light), "light");
    assert_eq!(theme_name(ThemeMode::Dark), "dark");
    for mode in [ThemeMode::Light, ThemeMode::Dark] {
        assert_eq!(theme_from_name(Some(&theme_name(mode))), mode);
    }
}

#[test]
fn toggling_the_theme_twice_restores_it() {
    assert_eq!(toggled_theme(ThemeMode::Light), ThemeMode::Dark);
    assert_eq!(toggled_theme(ThemeMode::Dark), ThemeMode::Light);
    for mode in [ThemeMode::Light, ThemeMode::Dark] {
        assert_eq!(toggled_theme(toggled_theme(mode)), mode);
    }
}

#[test]
fn theme_document_versions() {
    assert_eq!(check_theme_version(VersionField::Missing).unwrap(), 1);
    assert_eq!(check_theme_version(VersionField::Integer(1)).unwrap(), 1);
    match check_theme_version(VersionField::Integer(3)) {
        Err(SettingsError::UnsupportedVersion(3)) => {}
        other => panic!("unexpected {other:?}"),
    }
    for bad in [VersionField::Integer(-1), VersionField::Integer(1 << 40), VersionField::Other] {
        match check_theme_version(bad) {
            Err(SettingsError::Parse(m)) => {
                assert_eq!(m, "theme version must be a non-negative integer")
            }
            other => panic!("unexpected {other:?}"),
        }
    }
}

#[test]
fn tags_document_of_current_version_loads() {
    let groups = vec![group(1, "Work", &["C:\\a", "C:\\b"]), group(4, "Home", &[])];
    let snapshot = tags_from_document(1, 5, groups).unwrap();
    assert_eq!(snapshot.version, 1);
    assert_eq!(snapshot.next_group_id, 5);
    assert_eq!(snapshot.groups.len(), 2);
    assert_eq!(snapshot.groups[0].name, "Work");
    assert_eq!(snapshot.groups[0].items, vec!["C:\\a".to_string(), "C:\\b".to_string()]);
    assert_eq!(snapshot.groups[1].id, 4);
}

#[test]
fn tags_document_of_other_version_is_refused() {
    match tags_from_document(9, 5, vec![group(1, "Work", &[])]) {
        Err(SettingsError::UnsupportedVersion(9)) => {}
        other => panic!("unexpected {other:?}"),
    }
}

#[test]
fn saved_tags_load_back_unchanged() {
    let saved = tags_for_save(TagsSnapshot {
        version: 0,
        next_group_id: 12,
        groups: vec![group(11, "Music", &["D:\\m"])],
    });
    assert_eq!(saved.version, CONFIG_VERSION);
    let loaded = tags_from_document(saved.version, saved.next_group_id, saved.groups).unwrap();
    assert_eq!(loaded.next_group_id, 12);
    assert_eq!(loaded.groups[0].id, 11);
    assert_eq!(loaded.groups[0].color, [10, 20, 30, 255]);
}

#[test]
fn binary_tags_are_migrated_to_the_current_version() {
    let s = tags_from_binary(3, vec![group(2, "Old", &["x"])]);
    assert_eq!(s.version, CONFIG_VERSION);
    assert_eq!(s.next_group_id, 3);
    assert_eq!(s.groups[0].name, "Old");
}

#[test]
fn favorites_documents() {
    let favs = vec!["C:\\Users".to_string(), "D:\\".to_string()];
    assert_eq!(favorites_from_document(1, favs.clone()).unwrap(), favs);
    match favorites_from_document(2, favs) {
        Err(SettingsError::UnsupportedVersion(2)) => {}
        other => panic!("unexpected {other:?}"),
    }
}

#[test]
fn favorites_file_names() {
    assert_eq!(favorites_file_name('C'), "drive_C.toml");
    assert_eq!(old_favorites_file_name('D'), "drive_D.bin");
}

#[test]
fn locale_selection() {
    assert_eq!(default_locale("ja-JP"), "ja-JP");
    assert_eq!(default_locale("ja"), "ja-JP");
    assert_eq!(default_locale("id-ID"), "id-ID");
    assert_eq!(default_locale("zh-CN"), "zh-CN");
    assert_eq!(default_locale("zh-TW"), "zh-CN");
    assert_eq!(default_locale("zh-HK"), "zh-CN");
    assert_eq!(default_locale("en-GB"), "en-US");
    assert_eq!(default_locale("fr-FR"), "en-US");
    assert_eq!(default_locale(""), "en-US");
    assert_eq!(default_locale("j"), "en-US");
}

#[test]
fn saved_language_wins_over_system_default() {
    assert_eq!(interface_language("", "ja-JP"), "ja-JP");
    assert_eq!(interface_language("id-ID", "ja-JP"), "id-ID");
}

#[test]
fn column_orders_per_listing() {
    let mut orders = ColumnOrders::default();
    assert_eq!(orders.order(false, false), &default_file_order());
    assert_eq!(orders.order(true, true), &default_drive_order());
    assert_eq!(orders.order(false, true), &default_recycle_order());
    orders.set_order(false, true, vec![C::Deleted, C::Type]);
    assert_eq!(orders.recycle, vec![C::Deleted, C::Type]);
    assert_eq!(orders.file, default_file_order());
    orders.set_order(true, true, vec![C::Usage]);
    assert_eq!(orders.drive, vec![C::Usage]);
    assert_eq!(orders.recycle, vec![C::Deleted, C::Type]);
    orders.set_order(false, false, vec![C::Size]);
    assert_eq!(orders.file, vec![C::Size]);
}

#[test]
fn startup_language_prefers_the_saved_one() {
    assert_eq!(startup_language("id-ID"), "id-ID");
    let detected = startup_language("");
    assert!(["ja-JP", "id-ID", "zh-CN", "en-US"].contains(&detected.as_str()), "{detected}");
}

#[test]
fn the_system_locale_decides_when_nothing_is_saved() {
    assert_eq!(language_for("", None), "en-US");
    assert_eq!(language_for("", Some("ja".to_string())), "ja-JP");
    assert_eq!(language_for("", Some("de-DE".to_string())), "en-US");
    assert_eq!(language_for("id-ID", Some("ja-JP".to_string())), "id-ID");
}
