use aop_app::changes::{
    describe_device, describe_run, furthest, gap_explained, highest_acknowledged, refused_message,
    resource_field_label, resource_field_of, view_option_label, BroughtIn, Held, ResourceField,
    ViewOption,
};

fn held(name: &str, selecting: bool, field: Option<&str>, summary: &str) -> Held {
    Held {
        name: name.to_string(),
        selecting,
        field: field.map(|f| f.to_string()),
        summary: summary.to_string(),
    }
}

#[test]
fn a_resource_column_is_named_by_its_key() {
    assert_eq!(resource_field_of("max"), Some(ResourceField::MaxUnits));
    assert_eq!(resource_field_of("kind"), Some(ResourceField::Kind));
    assert_eq!(resource_field_of("Name"), None);
    assert_eq!(resource_field_label(ResourceField::MaxUnits), "Max Units");
    assert_eq!(resource_field_label(ResourceField::Kind), "Type");
}

#[test]
fn every_resource_key_names_the_column_it_is_labelled_as() {
    for (key, field) in [
        ("name", ResourceField::Name),
        ("initials", ResourceField::Initials),
        ("group", ResourceField::Group),
        ("max", ResourceField::MaxUnits),
        ("rate", ResourceField::Rate),
        ("kind", ResourceField::Kind),
    ] {
        assert_eq!(resource_field_of(key), Some(field));
        assert!(!resource_field_label(field).is_empty());
    }
}

#[test]
fn a_view_option_reads_as_part_of_a_sentence() {
    assert_eq!(view_option_label(ViewOption::CriticalPath), "the critical path");
    assert_eq!(view_option_label(ViewOption::RoundBars), "rounded bars");
}

#[test]
fn a_run_of_nothing_but_selecting_says_what_the_selecting_was() {
    let run = vec![
        held("select_row", true, None, "Selected row 3"),
        held("select_row", true, None, "Selected row 5"),
    ];
    assert_eq!(describe_run(&run), "Selected row 5");
    assert_eq!(describe_run(&Vec::new()), "");
}

#[test]
fn one_edit_among_selections_is_described_as_itself() {
    let run = vec![
        held("select_row", true, None, "Selected row 3"),
        held("append_task", false, None, "Added Pour the slab"),
        held("select_row", true, None, "Selected row 4"),
    ];
    assert_eq!(describe_run(&run), "Added Pour the slab");
}

#[test]
fn one_field_set_down_a_run_of_rows_is_named_once_with_a_count() {
    let run = vec![
        held("set_field", false, Some("Duration"), "Set Duration on row 1"),
        held("select_row", true, None, "Selected row 2"),
        held("set_field", false, Some("Duration"), "Set Duration on row 2"),
        held("set_field", false, Some("Duration"), "Set Duration on row 3"),
    ];
    assert_eq!(describe_run(&run), "Set Duration on 3 rows");
}

#[test]
fn different_edits_in_one_step_are_counted() {
    let run = vec![
        held("append_task", false, None, "Added A"),
        held("set_field", false, Some("Name"), "Renamed A"),
    ];
    assert_eq!(describe_run(&run), "2 changes in one step");
}

#[test]
fn work_that_fitted_is_clean_and_says_nothing() {
    let b = BroughtIn { applied_clean: true, rejected: 0, replayed: 3, sent: 3 };
    assert!(b.is_clean());
    assert_eq!(b.why(), "");
}

#[test]
fn work_that_did_not_fit_says_both_reasons() {
    let b = BroughtIn { applied_clean: false, rejected: 2, replayed: 1, sent: 4 };
    assert!(!b.is_clean());
    assert_eq!(
        b.why(),
        "3 of the 4 commands that came in could not be replayed here, and \
         2 of the changes they made do not fit this copy of the plan"
    );
    let only = BroughtIn { applied_clean: false, rejected: 1, replayed: 4, sent: 4 };
    assert_eq!(only.why(), "1 of the changes they made do not fit this copy of the plan");
}

#[test]
fn a_device_is_shown_by_its_platform_and_a_short_fingerprint() {
    assert_eq!(describe_device("linux", "0123456789abcdef"), "linux (01234567)");
    assert_eq!(describe_device("windows", "abc"), "windows (abc)");
}

#[test]
fn work_is_marked_sent_by_the_highest_id_acknowledged() {
    assert_eq!(highest_acknowledged(&vec![(4, 10), (9, 12), (7, 11)]), Some(9));
    assert_eq!(highest_acknowledged(&vec![]), None);
}

#[test]
fn a_trimmed_log_says_how_far_it_was_trimmed() {
    let why = gap_explained(120, Some(80));
    assert!(why.contains("the oldest change it still keeps is 80, and the head is now 120."), "{why}");
    let none = gap_explained(-3, None);
    assert!(none.contains("it no longer keeps any of them, and the head is now -3."), "{none}");
    assert!(none.ends_with("so this copy needs a fresh whole plan instead."));
}

#[test]
fn a_refusal_with_a_reason_is_passed_on() {
    assert_eq!(
        refused_message("too big").as_deref(),
        Some("The server would not take a change: too big. It is still here and will be offered again.")
    );
    assert_eq!(refused_message("  "), None);
}

#[test]
fn the_cursor_only_ever_moves_forward() {
    assert_eq!(furthest(None, 5), 5);
    assert_eq!(furthest(Some(9), 5), 9);
    assert_eq!(furthest(Some(3), 5), 5);
}
