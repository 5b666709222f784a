use aop_app::selection::Selection;
use aop_app::state::{
    date_format_slot, date_pattern, default_qat_commands, document_title, guard, is_undo_entry,
    move_qat, name_beside, nth_name_beside, paths_match, push_recent, qat_from_keys, qat_keys, reset_qat, rows_phrase,
    sent_message, standing_outcome, tasks_phrase, toggle_pane, toggle_qat, BackstagePage,
    CheckOutcome, Guarded, OptionsPage, PaneFocus, PendingAction, QatCommand, RecentEntry,
    RibbonTab, TaskFilter, ViewKind, Working, Zoom, DATE_FORMATS, NAME_TRIES, RECENT_LIMIT,
};

#[test]
fn every_toolbar_command_survives_a_round_trip_through_its_key() {
    for command in QatCommand::ALL {
        assert_eq!(QatCommand::from_key(command.key()), Some(command));
        assert!(!command.label().is_empty());
        assert!(!command.glyph().is_empty());
    }
    assert_eq!(QatCommand::from_key("no-such-command"), None);
}

#[test]
fn toggling_a_command_twice_puts_the_toolbar_back() {
    let mut qat = default_qat_commands();
    let before = qat.clone();
    let absent = QatCommand::ALL
        .into_iter()
        .find(|c| !qat.contains(c))
        .expect("a command not on the default toolbar");
    toggle_qat(&mut qat, absent);
    assert_eq!(qat.last(), Some(&absent));
    toggle_qat(&mut qat, absent);
    assert_eq!(qat, before);
}

#[test]
fn a_command_moves_along_the_toolbar_but_not_off_it() {
    let mut qat = vec![QatCommand::Save, QatCommand::Undo, QatCommand::Redo];
    move_qat(&mut qat, QatCommand::Save, 1);
    assert_eq!(qat, vec![QatCommand::Undo, QatCommand::Save, QatCommand::Redo]);
    move_qat(&mut qat, QatCommand::Undo, -1);
    assert_eq!(qat, vec![QatCommand::Undo, QatCommand::Save, QatCommand::Redo]);
    move_qat(&mut qat, QatCommand::Print, 1);
    assert_eq!(qat.len(), 3);
}

#[test]
fn a_saved_toolbar_comes_back_from_its_keys_and_an_empty_one_is_the_default() {
    let qat = vec![QatCommand::Print, QatCommand::Save];
    let keys: Vec<String> = qat_keys(&qat).into_iter().map(|k| k.to_string()).collect();
    assert_eq!(qat_from_keys(&keys), qat);
    let junk = vec!["nothing".to_string(), "at all".to_string()];
    assert_eq!(qat_from_keys(&junk), default_qat_commands());
    let mut changed = vec![QatCommand::Print];
    reset_qat(&mut changed);
    assert_eq!(changed, default_qat_commands());
}

#[test]
fn the_file_just_opened_leads_the_recent_list_once() {
    let mut recent = vec![
        RecentEntry { name: "a".into(), path: "/a.aop".into() },
        RecentEntry { name: "b".into(), path: "/b.aop".into() },
    ];
    push_recent(&mut recent, "b".into(), "/b.aop".into());
    assert_eq!(recent.len(), 2);
    assert_eq!(recent[0].path, "/b.aop");
    assert_eq!(recent[1].path, "/a.aop");
}

#[test]
fn the_recent_list_keeps_only_the_newest() {
    let mut recent = Vec::new();
    for n in 0..RECENT_LIMIT + 3 {
        push_recent(&mut recent, format!("{n}"), format!("/{n}.aop"));
    }
    assert_eq!(recent.len(), RECENT_LIMIT);
    assert_eq!(recent[0].name, format!("{}", RECENT_LIMIT + 2));
}

#[test]
fn a_count_is_written_without_a_stray_plural() {
    assert_eq!(tasks_phrase(1), "1 task");
    assert_eq!(tasks_phrase(4), "4 tasks");
    assert_eq!(tasks_phrase(0), "0 tasks");
    assert_eq!(rows_phrase(1), "1 row");
    assert_eq!(rows_phrase(12), "12 rows");
}

#[test]
fn an_undo_or_a_redo_is_recognised_by_the_last_line_of_its_script() {
    assert!(is_undo_entry("select_row(3);\nundo();"));
    assert!(is_undo_entry("  redo();  "));
    assert!(!is_undo_entry("undo();\nappend_task(\"A\");"));
    assert!(!is_undo_entry(""));
}

#[test]
fn an_unsaved_plan_is_marked_in_the_title() {
    assert_eq!(document_title("Bridge", true), "Bridge*");
    assert_eq!(document_title("Bridge", false), "Bridge");
}

#[test]
fn a_stored_date_style_past_the_end_is_the_last_one() {
    assert_eq!(date_format_slot(2), 2);
    assert_eq!(date_format_slot(99), DATE_FORMATS.len() - 1);
    assert_eq!(date_pattern(4), "%Y-%m-%d");
    assert_eq!(date_pattern(99), "%a %d/%m/%y");
}

#[test]
fn hiding_the_chart_leaves_the_format_tab() {
    let (focus, tab) = toggle_pane(PaneFocus::Both, RibbonTab::Format, PaneFocus::TableOnly);
    assert_eq!(focus, PaneFocus::TableOnly);
    assert_eq!(tab, RibbonTab::Task);
    let (focus, tab) = toggle_pane(PaneFocus::TableOnly, RibbonTab::Format, PaneFocus::TableOnly);
    assert_eq!(focus, PaneFocus::Both);
    assert_eq!(tab, RibbonTab::Format);
}

#[test]
fn a_free_name_numbers_the_copy_beside_the_original() {
    assert_eq!(name_beside("plan", 2, Some("aop")), "plan (2).aop");
    assert_eq!(name_beside("notes", NAME_TRIES, None), "notes (999)");
}

#[test]
fn a_clean_plan_is_discarded_without_asking() {
    let dirty = false;
    assert_eq!(
        guard(dirty, PendingAction::CloseProject),
        Guarded::Proceed(PendingAction::CloseProject),
        "nothing was at stake"
    );
}

#[test]
fn unsaved_work_is_asked_about_before_it_is_thrown_away() {
    let dirty = true;
    assert_eq!(
        guard(dirty, PendingAction::Quit),
        Guarded::Ask(PendingAction::Quit),
        "the question has to be asked, and remember what it was asked about"
    );
}

#[test]
fn a_pending_action_says_what_was_asked_for() {
    assert_eq!(PendingAction::Open("x.aop".into()).describe(), "opening another plan");
    assert_eq!(PendingAction::Quit.describe(), "closing");
}

#[test]
fn what_a_sync_sent_is_counted_in_words() {
    assert_eq!(sent_message(0), "Already up to date. Nothing was waiting to go.");
    assert_eq!(sent_message(1), "1 change sent.");
    assert_eq!(sent_message(7), "7 changes sent.");
}

#[test]
fn a_server_further_on_says_by_how_much() {
    assert_eq!(standing_outcome(10, 7), CheckOutcome::Behind { by: 3 });
    assert_eq!(standing_outcome(7, 7), CheckOutcome::Current);
    assert_eq!(standing_outcome(3, 7), CheckOutcome::Current);
}

#[test]
fn zooming_steps_through_the_scales_and_stops_at_the_ends() {
    assert_eq!(Zoom::Weeks.zoom_in(), Zoom::Days);
    assert_eq!(Zoom::Days.zoom_in(), Zoom::Days);
    assert_eq!(Zoom::Weeks.zoom_out(), Zoom::Months);
    assert_eq!(Zoom::Quarters.zoom_out(), Zoom::Quarters);
    for zoom in Zoom::ORDER {
        assert!(!zoom.label().is_empty());
    }
}

#[test]
fn every_tab_page_and_view_has_a_name() {
    for tab in RibbonTab::ORDER {
        assert!(!tab.label().is_empty());
    }
    for page in OptionsPage::ORDER {
        assert!(!page.label().is_empty());
    }
    assert_eq!(RibbonTab::Task.label(), "Task");
    assert!(ViewKind::GanttChart.has_chart());
    assert!(!BackstagePage::Info.label().is_empty());
    assert!(!TaskFilter::All.label().is_empty());
    assert!(Working::SigningOut.waiting().starts_with("Signing out"));
}

#[test]
fn selecting_a_row_selects_only_it() {
    let mut selection = Selection::new();
    selection.select(3);
    selection.select(5);
    assert_eq!(selection.rows, vec![5]);
    assert_eq!(selection.primary(), Some(5));
    assert!(selection.is_selected(5));
    assert!(!selection.is_selected(3));
}

#[test]
fn extending_the_selection_keeps_its_anchor() {
    let mut selection = Selection::new();
    selection.select(4);
    selection.extend_selection(7);
    assert_eq!(selection.rows, vec![4, 5, 6, 7]);
    selection.extend_selection(2);
    assert_eq!(selection.rows, vec![4, 3, 2]);
    let mut empty = Selection::new();
    empty.extend_selection(6);
    assert_eq!(empty.rows, vec![6]);
}

#[test]
fn toggling_a_row_takes_it_out_or_adds_it_at_the_end() {
    let mut selection = Selection::new();
    selection.select(1);
    selection.toggle_selection(4);
    selection.toggle_selection(2);
    assert_eq!(selection.rows, vec![1, 4, 2]);
    selection.toggle_selection(4);
    assert_eq!(selection.rows, vec![1, 2]);
}

#[test]
fn rows_past_the_end_of_the_plan_drop_out_of_the_selection() {
    let mut selection = Selection { rows: vec![7, 1, 9, 3] };
    selection.clamp_selection(5);
    assert_eq!(selection.rows, vec![1, 3]);
}

#[test]
fn the_selection_in_order_is_ascending_and_has_no_repeats() {
    let selection = Selection { rows: vec![5, 2, 5, 9, 2] };
    assert_eq!(selection.ordered_selection(), vec![2, 5, 9]);
}

#[test]
fn a_view_names_the_tools_tab_it_brings() {
    assert_eq!(ViewKind::GanttChart.label(), "Gantt Chart");
    assert_eq!(ViewKind::GanttChart.tools_label(), "Gantt Chart Tools");
    assert_eq!(ViewKind::CalendarView.tools_label(), "Calendar Tools");
    assert_eq!(ViewKind::Burndown.tools_label(), "Report Tools");
}

#[test]
fn the_same_file_written_two_ways_is_one_recent_entry() {
    assert!(paths_match("/p//a.aop", "/p/a.aop"));
    assert!(paths_match("/p/./a.aop", "/p/a.aop"));
    assert!(paths_match("/p/dir/", "/p/dir"));
    assert!(!paths_match("./a.aop", "a.aop"));
    assert!(!paths_match("/a.aop", "a.aop"));
    assert!(!paths_match("/p/../a.aop", "/a.aop"));

    let mut recent = vec![
        RecentEntry { name: "a".into(), path: "/p//a.aop".into() },
        RecentEntry { name: "b".into(), path: "/b.aop".into() },
    ];
    push_recent(&mut recent, "a".into(), "/p/./a.aop".into());
    assert_eq!(recent.len(), 2);
    assert_eq!(recent[0].path, "/p/./a.aop");
    assert_eq!(recent[1].path, "/b.aop");
}

#[test]
fn numbered_names_stop_after_the_last_try() {
    assert_eq!(nth_name_beside("plan", 0, Some("aprj")), None);
    assert_eq!(nth_name_beside("plan", 1, Some("aprj")).as_deref(), Some("plan (1).aprj"));
    assert_eq!(nth_name_beside("plan", NAME_TRIES, None).as_deref(), Some("plan (999)"));
    assert_eq!(nth_name_beside("plan", NAME_TRIES + 1, None), None);
}
