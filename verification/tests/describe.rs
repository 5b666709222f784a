use aop_app::changes::{ResourceField, ViewOption};
use aop_app::describe::{describe_command, Command};
use aop_app::selection::Selection;
use aop_app::state::{TaskFilter, ViewKind, Zoom};

fn sel(rows: &[usize]) -> Selection {
    Selection { rows: rows.to_vec() }
}

fn rows(n: usize) -> Selection {
    Selection { rows: (0..n).collect() }
}

#[test]
fn toggling_reads_the_selection_one_row_down() {
    let s = sel(&[1]);
    assert_eq!(describe_command(&Command::ToggleRow { row: 2 }, &s), "Took row 2 out of the selection");
    assert_eq!(describe_command(&Command::ToggleRow { row: 1 }, &s), "Added row 1 to the selection");
    assert_eq!(describe_command(&Command::ToggleRow { row: 0 }, &s), "Added row 0 to the selection");
}

#[test]
fn selecting_names_the_rows() {
    assert_eq!(describe_command(&Command::SelectRow { row: 4 }, &rows(1)), "Selected row 4");
    assert_eq!(describe_command(&Command::SelectRows { from: 2, to: 10 }, &rows(9)), "Selected rows 2 to 10");
    assert_eq!(
        describe_command(&Command::ToggleRow { row: 3 }, &sel(&[0, 2])),
        "Took row 3 out of the selection"
    );
    assert_eq!(
        describe_command(&Command::ToggleRow { row: 3 }, &sel(&[0, 3])),
        "Added row 3 to the selection"
    );
    assert_eq!(describe_command(&Command::ClearSelection, &rows(0)), "Selected nothing");
}

#[test]
fn an_edit_counts_the_rows_it_was_given() {
    assert_eq!(describe_command(&Command::DeleteTasks, &rows(1)), "Deleted 1 task");
    assert_eq!(describe_command(&Command::Indent, &rows(3)), "Indented 3 tasks");
    assert_eq!(describe_command(&Command::FillDown { field: "Duration".into() }, &rows(5)), "Filled Duration down 5 rows");
    assert_eq!(
        describe_command(&Command::SetTaskMode { manual: true }, &rows(2)),
        "Set 2 tasks to manual scheduling"
    );
    assert_eq!(describe_command(&Command::ToggleActive { was_active: true }, &rows(1)), "Made 1 task inactive");
    assert_eq!(
        describe_command(&Command::SetPercentComplete { percent: "50".into() }, &rows(2)),
        "Marked 2 tasks 50% complete"
    );
}

#[test]
fn typed_text_is_trimmed_and_an_empty_value_clears() {
    assert_eq!(describe_command(&Command::AppendTask { name: "  ".into() }, &rows(0)), "Added a task at the end");
    assert_eq!(describe_command(&Command::AppendTask { name: " Pour slab ".into() }, &rows(0)), "Added the task Pour slab");
    assert_eq!(
        describe_command(&Command::SetField { row: 2, field: "Name".into(), value: "\t".into() }, &rows(1)),
        "Cleared Name on row 2"
    );
    assert_eq!(
        describe_command(&Command::SetField { row: 2, field: "Duration".into(), value: " 3d ".into() }, &rows(1)),
        "Set Duration on row 2 to 3d"
    );
}

#[test]
fn links_and_resources_read_as_a_planner_would_say_them() {
    assert_eq!(
        describe_command(&Command::SetLink { row: 5, predecessor: 2, kind: "FS".into() }, &rows(1)),
        "Linked row 2 to row 5 (FS)"
    );
    assert_eq!(
        describe_command(&Command::RemoveLink { row: 5, predecessor: 2 }, &rows(1)),
        "Took the link from row 2 off row 5"
    );
    assert_eq!(
        describe_command(&Command::DeleteResource { resource_row: 3, name: Some("Ana".into()) }, &rows(0)),
        "Took Ana off the resource sheet"
    );
    assert_eq!(
        describe_command(&Command::DeleteResource { resource_row: 9, name: None }, &rows(0)),
        "Took row 9 off the resource sheet"
    );
    assert_eq!(
        describe_command(&Command::AssignResource { row: 1, name: "Ana".into(), units: "50".into() }, &rows(1)),
        "Booked Ana onto row 1 at 50%"
    );
    assert_eq!(
        describe_command(
            &Command::SetResourceField { resource_row: 2, field: ResourceField::MaxUnits, value: "80%".into() },
            &rows(0)
        ),
        "Set Max Units on resource row 2 to 80%"
    );
}

#[test]
fn views_say_what_is_now_on_screen() {
    assert_eq!(describe_command(&Command::SetView { view: ViewKind::TaskSheet }, &rows(0)), "Switched to the Task Sheet view");
    assert_eq!(describe_command(&Command::SetZoom { zoom: Zoom::Weeks }, &rows(0)), "Zoomed to Weeks");
    assert_eq!(describe_command(&Command::SetFilter { filter: TaskFilter::Critical }, &rows(0)), "Filtered to Critical");
    assert_eq!(describe_command(&Command::GroupBy { field: None }, &rows(0)), "Took the grouping off");
    assert_eq!(
        describe_command(&Command::ShowColumn { field: "Cost".into(), at: 3 }, &rows(0)),
        "Showed the Cost column at position 3"
    );
    assert_eq!(
        describe_command(&Command::SetViewOption { option: ViewOption::Links, on: false }, &rows(0)),
        "Turned link lines off"
    );
    assert_eq!(describe_command(&Command::Note { message: "hello".into() }, &rows(0)), "Said: hello");
}
