//! The one short sentence the change log and the status line give a
//! command, in the words a planner would use.
//!
//! A command is described before it runs, because half of these sentences
//! read the plan as it was: how many rows were selected, whether a task was
//! active, who was on the resource sheet. What they read is carried in the
//! command as plain values, and what only the scheduling engine can name (a
//! field, a kind of link, a date in the chosen format, a share of somebody's
//! time) is carried as the text the engine gives it.

use vstd::prelude::*;
use vstd::string::StringExecFns;
use crate::changes::{
    resource_field_label, resource_field_text, view_option_label, view_option_text,
    ResourceField, ViewOption,
};
use crate::selection::Selection;
use crate::state::{rows_phrase, rows_text, tasks_phrase, tasks_text, TaskFilter, ViewKind, Zoom};
use crate::text::{chars_of, decimal, decimal_string, string_of, trim, trim_chars};

verus! {

/// A command as the log describes it. Rows are numbered from one; the
/// selection holds indices counted from nought.
pub enum Command {
    SelectRow { row: u32 },
    SelectRows { from: u32, to: u32 },
    ToggleRow { row: u32 },
    SelectAll,
    ClearSelection,
    InsertTask,
    InsertMilestone,
    InsertSummary,
    AppendTask { name: String },
    DeleteTasks,
    Indent,
    Outdent,
    MoveUp,
    MoveDown,
    CopyTasks,
    CutTasks,
    PasteTasks,
    ExpandAll,
    CollapseAll,
    Link,
    Unlink,
    /// `kind`: the short code of the kind of link.
    SetLink { row: u32, predecessor: u32, kind: String },
    RemoveLink { row: u32, predecessor: u32 },
    /// `field`: the field's label.
    SetField { row: u32, field: String, value: String },
    /// `percent`: the share done, as the command gives it.
    SetPercentComplete { percent: String },
    SetTaskMode { manual: bool },
    /// `was_active`: whether the first selected task was active before.
    ToggleActive { was_active: bool },
    RespectLinks,
    FillDown { field: String },
    AddResource { name: String },
    /// `name`: who is on that row of the resource sheet, if anybody is.
    DeleteResource { resource_row: u32, name: Option<String> },
    /// `units`: the share of their time, rounded to a whole percent.
    AssignResource { row: u32, name: String, units: String },
    SetAssignmentUnits { row: u32, name: String, units: String },
    UnassignResource { row: u32, name: String },
    SetResourceField { resource_row: u32, field: ResourceField, value: String },
    SetView { view: ViewKind },
    SetZoom { zoom: Zoom },
    ZoomToFit,
    SetFilter { filter: TaskFilter },
    GroupBy { field: Option<String> },
    SortBy { field: String },
    ShowColumn { field: String, at: u32 },
    HideColumn { field: String },
    ResetColumns,
    SetViewOption { option: ViewOption, on: bool },
    SetBaseline,
    ClearBaseline,
    /// `date`: the new start, written in the chosen date format.
    SetProjectStart { date: String },
    Level,
    ClearLeveling,
    Undo,
    Redo,
    Note { message: String },
}

pub open spec fn num(n: u32) -> Seq<char> {
    decimal(n as nat)
}

/// Whether row `row`, counted from one, is among the selected indices,
/// counted from nought. Row nought is never selected.
pub open spec fn row_selected(selected: Seq<usize>, row: u32) -> bool {
    row >= 1 && selected.contains((row - 1) as usize)
}

/// The sentence for `cmd`, with the rows at `selected` selected when it
/// runs.
pub open spec fn command_text(cmd: Command, selected: Seq<usize>) -> Seq<char> {
    let rows = selected.len();
    match cmd {
        Command::SelectRow { row } => "Selected row "@ + num(row),
        Command::SelectRows { from, to } => "Selected rows "@ + num(from) + " to "@ + num(to),
        Command::ToggleRow { row } => if row_selected(selected, row) {
            "Took row "@ + num(row) + " out of the selection"@
        } else {
            "Added row "@ + num(row) + " to the selection"@
        },
        Command::SelectAll => "Selected every row"@,
        Command::ClearSelection => "Selected nothing"@,
        Command::InsertTask => "Inserted a task"@,
        Command::InsertMilestone => "Inserted a milestone"@,
        Command::InsertSummary => "Inserted a summary task"@,
        Command::AppendTask { name } => if trim(name@).len() == 0 {
            "Added a task at the end"@
        } else {
            "Added the task "@ + trim(name@)
        },
        Command::DeleteTasks => "Deleted "@ + tasks_text(rows),
        Command::Indent => "Indented "@ + tasks_text(rows),
        Command::Outdent => "Outdented "@ + tasks_text(rows),
        Command::MoveUp => "Moved a task up"@,
        Command::MoveDown => "Moved a task down"@,
        Command::CopyTasks => "Copied "@ + tasks_text(rows),
        Command::CutTasks => "Cut "@ + tasks_text(rows),
        Command::PasteTasks => "Pasted from the clipboard"@,
        Command::ExpandAll => "Opened every summary row"@,
        Command::CollapseAll => "Closed every summary row"@,
        Command::Link => "Linked "@ + tasks_text(rows),
        Command::Unlink => "Unlinked "@ + tasks_text(rows),
        Command::SetLink { row, predecessor, kind } => "Linked row "@ + num(predecessor)
            + " to row "@ + num(row) + " ("@ + kind@ + ")"@,
        Command::RemoveLink { row, predecessor } => "Took the link from row "@ + num(predecessor)
            + " off row "@ + num(row),
        Command::SetField { row, field, value } => if trim(value@).len() == 0 {
            "Cleared "@ + field@ + " on row "@ + num(row)
        } else {
            "Set "@ + field@ + " on row "@ + num(row) + " to "@ + trim(value@)
        },
        Command::SetPercentComplete { percent } => "Marked "@ + tasks_text(rows) + " "@ + percent@
            + "% complete"@,
        Command::SetTaskMode { manual } => "Set "@ + tasks_text(rows) + " to "@ + (if manual {
            "manual"@
        } else {
            "automatic"@
        }) + " scheduling"@,
        Command::ToggleActive { was_active } => "Made "@ + tasks_text(rows) + " "@ + (if was_active {
            "inactive"@
        } else {
            "active"@
        }),
        Command::RespectLinks => "Released "@ + tasks_text(rows) + " back to auto scheduling"@,
        Command::FillDown { field } => "Filled "@ + field@ + " down "@ + rows_text(rows),
        Command::AddResource { name } => "Added "@ + name@ + " to the resource sheet"@,
        Command::DeleteResource { resource_row, name } => "Took "@ + (match name {
            Some(n) => n@,
            None => "row "@ + num(resource_row),
        }) + " off the resource sheet"@,
        Command::AssignResource { row, name, units } => "Booked "@ + name@ + " onto row "@ + num(row)
            + " at "@ + units@ + "%"@,
        Command::SetAssignmentUnits { row, name, units } => "Changed "@ + name@ + " on row "@ + num(
            row,
        ) + " to "@ + units@ + "%"@,
        Command::UnassignResource { row, name } => "Took "@ + name@ + " off row "@ + num(row),
        Command::SetResourceField { resource_row, field, value } => "Set "@ + resource_field_text(
            field,
        ) + " on resource row "@ + num(resource_row) + " to "@ + value@,
        Command::SetView { view } => "Switched to the "@ + crate::state::view_kind_label(view)
            + " view"@,
        Command::SetZoom { zoom } => "Zoomed to "@ + crate::state::zoom_label(zoom),
        Command::ZoomToFit => "Zoomed to fit the whole plan"@,
        Command::SetFilter { filter } => "Filtered to "@ + crate::state::task_filter_label(filter),
        Command::GroupBy { field } => match field {
            Some(f) => "Grouped by "@ + f@,
            None => "Took the grouping off"@,
        },
        Command::SortBy { field } => "Sorted by "@ + field@,
        Command::ShowColumn { field, at } => "Showed the "@ + field@ + " column at position "@ + num(
            at,
        ),
        Command::HideColumn { field } => "Hid the "@ + field@ + " column"@,
        Command::ResetColumns => "Put the Entry columns back"@,
        Command::SetViewOption { option, on } => "Turned "@ + view_option_text(option) + " "@ + (if on {
            "on"@
        } else {
            "off"@
        }),
        Command::SetBaseline => "Saved the baseline"@,
        Command::ClearBaseline => "Cleared the baseline"@,
        Command::SetProjectStart { date } => "Moved the plan to start on "@ + date@,
        Command::Level => "Levelled overbooked work"@,
        Command::ClearLeveling => "Cleared the levelling delays"@,
        Command::Undo => "Undid the last change"@,
        Command::Redo => "Redid the last change"@,
        Command::Note { message } => "Said: "@ + message@,
    }
}

fn trimmed(s: &String) -> (r: String)
    ensures
        r@ == trim(s@),
{
    string_of(&trim_chars(&chars_of(s.as_str())))
}

fn number(n: u32) -> (r: String)
    ensures
        r@ == num(n),
{
    decimal_string(n as u64)
}

fn said(s: &str) -> (r: String)
    ensures
        r@ == s@,
{
    String::from_str(s)
}

/// The sentence for `cmd`, worked out from `selection` as it is before the
/// command runs.
pub fn describe_command(cmd: &Command, selection: &Selection) -> (r: String)
    ensures
        r@ == command_text(*cmd, selection.rows@),
{
    let rows = selection.rows.len();
    match cmd {
        Command::SelectRow { row } => {
            let mut r = said("Selected row ");
            r.append(number(*row).as_str());
            r
        },
        Command::SelectRows { from, to } => {
            let mut r = said("Selected rows ");
            r.append(number(*from).as_str());
            r.append(" to ");
            r.append(number(*to).as_str());
            r
        },
        Command::ToggleRow { row } => {
            let already = *row >= 1 && selection.is_selected((*row - 1) as usize);
            if already {
                let mut r = said("Took row ");
                r.append(number(*row).as_str());
                r.append(" out of the selection");
                r
            } else {
                let mut r = said("Added row ");
                r.append(number(*row).as_str());
                r.append(" to the selection");
                r
            }
        },
        Command::SelectAll => said("Selected every row"),
        Command::ClearSelection => said("Selected nothing"),
        Command::InsertTask => said("Inserted a task"),
        Command::InsertMilestone => said("Inserted a milestone"),
        Command::InsertSummary => said("Inserted a summary task"),
        Command::AppendTask { name } => {
            let named = trimmed(name);
            if named.unicode_len() == 0 {
                said("Added a task at the end")
            } else {
                let mut r = said("Added the task ");
                r.append(named.as_str());
                r
            }
        },
        Command::DeleteTasks => {
            let mut r = said("Deleted ");
            r.append(tasks_phrase(rows).as_str());
            r
        },
        Command::Indent => {
            let mut r = said("Indented ");
            r.append(tasks_phrase(rows).as_str());
            r
        },
        Command::Outdent => {
            let mut r = said("Outdented ");
            r.append(tasks_phrase(rows).as_str());
            r
        },
        Command::MoveUp => said("Moved a task up"),
        Command::MoveDown => said("Moved a task down"),
        Command::CopyTasks => {
            let mut r = said("Copied ");
            r.append(tasks_phrase(rows).as_str());
            r
        },
        Command::CutTasks => {
            let mut r = said("Cut ");
            r.append(tasks_phrase(rows).as_str());
            r
        },
        Command::PasteTasks => said("Pasted from the clipboard"),
        Command::ExpandAll => said("Opened every summary row"),
        Command::CollapseAll => said("Closed every summary row"),
        Command::Link => {
            let mut r = said("Linked ");
            r.append(tasks_phrase(rows).as_str());
            r
        },
        Command::Unlink => {
            let mut r = said("Unlinked ");
            r.append(tasks_phrase(rows).as_str());
            r
        },
        Command::SetLink { row, predecessor, kind } => {
            let mut r = said("Linked row ");
            r.append(number(*predecessor).as_str());
            r.append(" to row ");
            r.append(number(*row).as_str());
            r.append(" (");
            r.append(kind.as_str());
            r.append(")");
            r
        },
        Command::RemoveLink { row, predecessor } => {
            let mut r = said("Took the link from row ");
            r.append(number(*predecessor).as_str());
            r.append(" off row ");
            r.append(number(*row).as_str());
            r
        },
        Command::SetField { row, field, value } => {
            let typed = trimmed(value);
            if typed.unicode_len() == 0 {
                let mut r = said("Cleared ");
                r.append(field.as_str());
                r.append(" on row ");
                r.append(number(*row).as_str());
                r
            } else {
                let mut r = said("Set ");
                r.append(field.as_str());
                r.append(" on row ");
                r.append(number(*row).as_str());
                r.append(" to ");
                r.append(typed.as_str());
                r
            }
        },
        Command::SetPercentComplete { percent } => {
            let mut r = said("Marked ");
            r.append(tasks_phrase(rows).as_str());
            r.append(" ");
            r.append(percent.as_str());
            r.append("% complete");
            r
        },
        Command::SetTaskMode { manual } => {
            let mut r = said("Set ");
            r.append(tasks_phrase(rows).as_str());
            r.append(" to ");
            r.append(if *manual { "manual" } else { "automatic" });
            r.append(" scheduling");
            r
        },
        Command::ToggleActive { was_active } => {
            let mut r = said("Made ");
            r.append(tasks_phrase(rows).as_str());
            r.append(" ");
            r.append(if *was_active { "inactive" } else { "active" });
            r
        },
        Command::RespectLinks => {
            let mut r = said("Released ");
            r.append(tasks_phrase(rows).as_str());
            r.append(" back to auto scheduling");
            r
        },
        Command::FillDown { field } => {
            let mut r = said("Filled ");
            r.append(field.as_str());
            r.append(" down ");
            r.append(rows_phrase(rows).as_str());
            r
        },
        Command::AddResource { name } => {
            let mut r = said("Added ");
            r.append(name.as_str());
            r.append(" to the resource sheet");
            r
        },
        Command::DeleteResource { resource_row, name } => {
            let mut r = said("Took ");
            match name {
                Some(n) => r.append(n.as_str()),
                None => {
                    r.append("row ");
                    r.append(number(*resource_row).as_str());
                },
            }
            r.append(" off the resource sheet");
            r
        },
        Command::AssignResource { row, name, units } => {
            let mut r = said("Booked ");
            r.append(name.as_str());
            r.append(" onto row ");
            r.append(number(*row).as_str());
            r.append(" at ");
            r.append(units.as_str());
            r.append("%");
            r
        },
        Command::SetAssignmentUnits { row, name, units } => {
            let mut r = said("Changed ");
            r.append(name.as_str());
            r.append(" on row ");
            r.append(number(*row).as_str());
            r.append(" to ");
            r.append(units.as_str());
            r.append("%");
            r
        },
        Command::UnassignResource { row, name } => {
            let mut r = said("Took ");
            r.append(name.as_str());
            r.append(" off row ");
            r.append(number(*row).as_str());
            r
        },
        Command::SetResourceField { resource_row, field, value } => {
            let mut r = said("Set ");
            r.append(resource_field_label(*field));
            r.append(" on resource row ");
            r.append(number(*resource_row).as_str());
            r.append(" to ");
            r.append(value.as_str());
            r
        },
        Command::SetView { view } => {
            let mut r = said("Switched to the ");
            r.append(view.label());
            r.append(" view");
            r
        },
        Command::SetZoom { zoom } => {
            let mut r = said("Zoomed to ");
            r.append(zoom.label());
            r
        },
        Command::ZoomToFit => said("Zoomed to fit the whole plan"),
        Command::SetFilter { filter } => {
            let mut r = said("Filtered to ");
            r.append(filter.label());
            r
        },
        Command::GroupBy { field } => match field {
            Some(f) => {
                let mut r = said("Grouped by ");
                r.append(f.as_str());
                r
            },
            None => said("Took the grouping off"),
        },
        Command::SortBy { field } => {
            let mut r = said("Sorted by ");
            r.append(field.as_str());
            r
        },
        Command::ShowColumn { field, at } => {
            let mut r = said("Showed the ");
            r.append(field.as_str());
            r.append(" column at position ");
            r.append(number(*at).as_str());
            r
        },
        Command::HideColumn { field } => {
            let mut r = said("Hid the ");
            r.append(field.as_str());
            r.append(" column");
            r
        },
        Command::ResetColumns => said("Put the Entry columns back"),
        Command::SetViewOption { option, on } => {
            let mut r = said("Turned ");
            r.append(view_option_label(*option));
            r.append(" ");
            r.append(if *on { "on" } else { "off" });
            r
        },
        Command::SetBaseline => said("Saved the baseline"),
        Command::ClearBaseline => said("Cleared the baseline"),
        Command::SetProjectStart { date } => {
            let mut r = said("Moved the plan to start on ");
            r.append(date.as_str());
            r
        },
        Command::Level => said("Levelled overbooked work"),
        Command::ClearLeveling => said("Cleared the levelling delays"),
        Command::Undo => said("Undid the last change"),
        Command::Redo => said("Redid the last change"),
        Command::Note { message } => {
            let mut r = said("Said: ");
            r.append(message.as_str());
            r
        },
    }
}


} // verus!
