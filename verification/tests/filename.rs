use eden_explorer::filename::{
    decide_rename, is_submitted_filename_valid, new_file_name, new_folder_name, plan_new_entry,
    rename_state_after, NewEntryPlan, RenameOutcome, RenameState, MAX_NAME_BYTES,
};

#[test]
fn ordinary_names_are_accepted() {
    assert!(is_submitted_filename_valid("report.txt"));
    assert!(is_submitted_filename_valid("New Folder (2)"));
    assert!(is_submitted_filename_valid(".gitignore"));
    assert!(is_submitted_filename_valid("Ünïcödé"));
    assert!(is_submitted_filename_valid("console.log"));
}

#[test]
fn empty_and_dot_names_are_refused() {
    assert!(!is_submitted_filename_valid(""));
    assert!(!is_submitted_filename_valid("."));
    assert!(!is_submitted_filename_valid(".."));
}

#[test]
fn leading_or_trailing_space_and_trailing_dot_are_refused() {
    assert!(!is_submitted_filename_valid(" name"));
    assert!(!is_submitted_filename_valid("name "));
    assert!(!is_submitted_filename_valid("name."));
}

#[test]
fn forbidden_and_control_chars_are_refused() {
    for bad in ["a<b", "a>b", "a:b", "a\"b", "a/b", "a\\b", "a|b", "a?b", "a*b", "a\tb", "a\u{1}b"] {
        assert!(!is_submitted_filename_valid(bad), "{bad:?} should be refused");
    }
}

#[test]
fn reserved_device_names_are_refused_in_any_case_and_with_extension() {
    assert!(!is_submitted_filename_valid("CON"));
    assert!(!is_submitted_filename_valid("con.txt"));
    assert!(!is_submitted_filename_valid("Lpt9.tar.gz"));
    assert!(!is_submitted_filename_valid("com1"));
    assert!(is_submitted_filename_valid("COM10"));
    assert!(is_submitted_filename_valid("LPT0"));
    assert!(is_submitted_filename_valid("CONSOLE"));
}

#[test]
fn names_are_limited_to_255_bytes() {
    let at_limit = "a".repeat(MAX_NAME_BYTES);
    assert!(is_submitted_filename_valid(&at_limit));
    let over = "a".repeat(MAX_NAME_BYTES + 1);
    assert!(!is_submitted_filename_valid(&over));
    // 128 two-byte chars are 256 bytes though only 128 chars.
    let wide = "é".repeat(128);
    assert!(!is_submitted_filename_valid(&wide));
    let wide_ok = "é".repeat(127);
    assert!(is_submitted_filename_valid(&wide_ok));
}

#[test]
fn rename_of_blank_text_is_cancelled() {
    assert!(matches!(decide_rename("   "), RenameOutcome::Cancel));
    assert!(matches!(decide_rename(""), RenameOutcome::Cancel));
}

#[test]
fn rename_trims_and_accepts_a_valid_name() {
    match decide_rename("  notes.md \n") {
        RenameOutcome::Rename(name) => assert_eq!(name, "notes.md"),
        other => panic!("unexpected outcome {other:?}"),
    }
}

#[test]
fn rename_to_an_invalid_name_keeps_the_trimmed_text() {
    match decide_rename(" aux.txt ") {
        RenameOutcome::Invalid(name) => assert_eq!(name, "aux.txt"),
        other => panic!("unexpected outcome {other:?}"),
    }
    match decide_rename("a*b") {
        RenameOutcome::Invalid(name) => assert_eq!(name, "a*b"),
        other => panic!("unexpected outcome {other:?}"),
    }
}

#[test]
fn new_folder_names_count_from_two() {
    assert_eq!(new_folder_name(0), "New Folder");
    assert_eq!(new_folder_name(1), "New Folder");
    assert_eq!(new_folder_name(2), "New Folder (2)");
    assert_eq!(new_folder_name(17), "New Folder (17)");
    assert_eq!(new_folder_name(u64::MAX), format!("New Folder ({})", u64::MAX));
}

#[test]
fn new_file_names_count_from_two() {
    assert_eq!(new_file_name(1), "New File.txt");
    assert_eq!(new_file_name(3), "New File (3).txt");
    assert_eq!(new_file_name(100), "New File (100).txt");
}

#[test]
fn a_new_entry_with_a_valid_name_is_created_then_renamed() {
    match plan_new_entry("/d".to_string(), "/d/New Folder (2)".to_string(), new_folder_name(2)) {
        NewEntryPlan::Create(state) => {
            assert_eq!(state.path, "/d/New Folder (2)");
            assert_eq!(state.new_name, "New Folder (2)");
            assert!(state.should_focus);
            assert!(!state.validation_error_show);
        }
        other => panic!("unexpected {other:?}"),
    }
}

#[test]
fn a_new_entry_with_an_invalid_name_opens_the_editor_with_the_error() {
    match plan_new_entry("/d".to_string(), "/d/nul".to_string(), "nul".to_string()) {
        NewEntryPlan::Reject(state) => {
            assert_eq!(state.path, "/d");
            assert_eq!(state.new_name, "nul");
            assert!(state.validation_error_show);
        }
        other => panic!("unexpected {other:?}"),
    }
}

fn editing(path: &str, name: &str) -> Option<RenameState> {
    Some(RenameState {
        path: path.to_string(),
        new_name: name.to_string(),
        should_focus: false,
        validation_error_show: false,
    })
}

#[test]
fn an_invalid_rename_keeps_the_editor_open_with_the_error() {
    let next = rename_state_after(editing("/d/a", "a"), &decide_rename(" a|b "));
    let state = next.expect("editor stays open");
    assert_eq!(state.path, "/d/a");
    assert_eq!(state.new_name, "a|b");
    assert!(state.should_focus);
    assert!(state.validation_error_show);
    assert!(rename_state_after(None, &decide_rename("a|b")).is_none());
}

#[test]
fn cancelled_or_accepted_renames_close_the_editor() {
    assert!(rename_state_after(editing("/d/a", "a"), &decide_rename("  ")).is_none());
    assert!(rename_state_after(editing("/d/a", "a"), &decide_rename("b.txt")).is_none());
}

#[test]
fn rename_trims_unicode_white_space_at_both_ends() {
    match decide_rename("\u{3000} a.txt\t\u{a0}") {
        RenameOutcome::Rename(t) => assert_eq!(t, "a.txt"),
        _ => panic!("expected a rename"),
    }
    assert!(matches!(decide_rename("\u{2003}\n"), RenameOutcome::Cancel));
}
