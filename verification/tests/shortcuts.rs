use eden_explorer::shortcuts::{
    dispatch_shortcuts, shortcuts_blocked, ShortcutBlockers, ShortcutCommand, ShortcutContext,
    ShortcutKeys,
};

fn keys() -> ShortcutKeys {
    ShortcutKeys {
        ctrl: false,
        alt: false,
        shift: false,
        tab: false,
        t: false,
        w: false,
        n: false,
        r: false,
        f5: false,
        f1: false,
        d: false,
        f2: false,
        enter: false,
    }
}

const FREE: ShortcutContext = ShortcutContext { blocked: false, renaming: false, editing_address: false };

#[test]
fn ctrl_tab_cycles_tabs() {
    let k = ShortcutKeys { ctrl: true, tab: true, ..keys() };
    assert_eq!(dispatch_shortcuts(k, FREE), vec![ShortcutCommand::NextTab]);
    let k = ShortcutKeys { shift: true, ..k };
    assert_eq!(dispatch_shortcuts(k, FREE), vec![ShortcutCommand::PreviousTab]);
}

#[test]
fn tab_and_folder_shortcuts() {
    assert_eq!(
        dispatch_shortcuts(ShortcutKeys { ctrl: true, t: true, ..keys() }, FREE),
        vec![ShortcutCommand::NewTab]
    );
    assert_eq!(
        dispatch_shortcuts(ShortcutKeys { ctrl: true, w: true, ..keys() }, FREE),
        vec![ShortcutCommand::CloseActiveTab]
    );
    assert_eq!(
        dispatch_shortcuts(ShortcutKeys { ctrl: true, shift: true, n: true, ..keys() }, FREE),
        vec![ShortcutCommand::NewFolder]
    );
    assert!(dispatch_shortcuts(ShortcutKeys { ctrl: true, n: true, ..keys() }, FREE).is_empty());
}

#[test]
fn reload_with_ctrl_r_or_f5() {
    assert_eq!(
        dispatch_shortcuts(ShortcutKeys { ctrl: true, r: true, ..keys() }, FREE),
        vec![ShortcutCommand::Reload]
    );
    assert_eq!(
        dispatch_shortcuts(ShortcutKeys { f5: true, ..keys() }, FREE),
        vec![ShortcutCommand::Reload]
    );
    assert!(dispatch_shortcuts(ShortcutKeys { r: true, ..keys() }, FREE).is_empty());
}

#[test]
fn the_first_matching_shortcut_wins() {
    let k = ShortcutKeys { ctrl: true, t: true, w: true, f5: true, ..keys() };
    assert_eq!(dispatch_shortcuts(k, FREE), vec![ShortcutCommand::NewTab]);
}

#[test]
fn fullscreen_lets_later_shortcuts_run() {
    let k = ShortcutKeys { f1: true, alt: true, d: true, ..keys() };
    assert_eq!(
        dispatch_shortcuts(k, FREE),
        vec![ShortcutCommand::ToggleFullscreen, ShortcutCommand::EditAddress]
    );
    assert_eq!(
        dispatch_shortcuts(ShortcutKeys { f1: true, ..keys() }, FREE),
        vec![ShortcutCommand::ToggleFullscreen]
    );
}

#[test]
fn rename_and_properties_respect_the_editing_state() {
    let f2 = ShortcutKeys { f2: true, ..keys() };
    assert_eq!(dispatch_shortcuts(f2, FREE), vec![ShortcutCommand::RenameSelection]);
    let renaming = ShortcutContext { renaming: true, ..FREE };
    assert!(dispatch_shortcuts(f2, renaming).is_empty());
    let editing = ShortcutContext { editing_address: true, ..FREE };
    assert!(dispatch_shortcuts(f2, editing).is_empty());

    let props = ShortcutKeys { alt: true, enter: true, ..keys() };
    assert_eq!(dispatch_shortcuts(props, FREE), vec![ShortcutCommand::SelectionProperties]);
    assert!(dispatch_shortcuts(props, editing).is_empty());
    // F2 is checked before Alt+Enter and ends the dispatch even when it does nothing.
    let both = ShortcutKeys { f2: true, alt: true, enter: true, ..keys() };
    assert!(dispatch_shortcuts(both, renaming).is_empty());
}

#[test]
fn blocked_frames_run_nothing() {
    let blocked = ShortcutContext { blocked: true, ..FREE };
    let k = ShortcutKeys { ctrl: true, tab: true, f1: true, f5: true, ..keys() };
    assert!(dispatch_shortcuts(k, blocked).is_empty());
}

fn nothing_open() -> ShortcutBlockers {
    ShortcutBlockers {
        theme_customizer_open: false,
        settings_open: false,
        about_open: false,
        tag_picker_open: false,
        tag_delete_confirmation_open: false,
        rename_error_shown: false,
        sidebar_popup_open: false,
        primary_view_popup_open: false,
        split_view_popup_open: false,
        topbar_menu_open: false,
        file_explorer_hidden: false,
    }
}

#[test]
fn any_open_window_blocks_shortcuts() {
    assert!(!shortcuts_blocked(nothing_open()));
    assert!(shortcuts_blocked(ShortcutBlockers { settings_open: true, ..nothing_open() }));
    assert!(shortcuts_blocked(ShortcutBlockers { topbar_menu_open: true, ..nothing_open() }));
    assert!(shortcuts_blocked(ShortcutBlockers { file_explorer_hidden: true, ..nothing_open() }));
    assert!(shortcuts_blocked(ShortcutBlockers { split_view_popup_open: true, ..nothing_open() }));
}
