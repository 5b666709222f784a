//! The application's own vocabulary: which tab, view, page and command is
//! which, what each is called, and the small rules the interface keeps about
//! them.

use vstd::prelude::*;
use vstd::string::StringExecFns;
use crate::text::{
    chars_of, decimal, decimal_string, lemma_split_nonempty, same_chars, slice_chars, split,
    split_chars, string_of, trim, trim_chars, views,
};

verus! {

#[derive(Debug, Clone, Copy, PartialEq, Eq, Structural)]
pub enum RibbonTab {
    Task,
    Resource,
    Report,
    Project,
    View,
    Format,
    Help,
}

pub open spec fn ribbon_tab_label(v: RibbonTab) -> Seq<char> {
    match v {
        RibbonTab::Task => "Task"@,
        RibbonTab::Resource => "Resource"@,
        RibbonTab::Report => "Report"@,
        RibbonTab::Project => "Project"@,
        RibbonTab::View => "View"@,
        RibbonTab::Format => "Format"@,
        RibbonTab::Help => "Help"@,
    }
}

impl RibbonTab {
    pub const ORDER: [RibbonTab; 6] = [
        RibbonTab::Task,
        RibbonTab::Resource,
        RibbonTab::Report,
        RibbonTab::Project,
        RibbonTab::View,
        RibbonTab::Help,
    ];

    pub fn label(self) -> (r: &'static str)
        ensures
            r@ == ribbon_tab_label(self),
    {
        match self {
            RibbonTab::Task => "Task",
            RibbonTab::Resource => "Resource",
            RibbonTab::Report => "Report",
            RibbonTab::Project => "Project",
            RibbonTab::View => "View",
            RibbonTab::Format => "Format",
            RibbonTab::Help => "Help",
        }
    }
}

#[derive(Debug, Clone, Copy, PartialEq, Eq, Structural)]
pub enum ViewKind {
    GanttChart,
    TrackingGantt,
    TaskSheet,
    TaskUsage,
    NetworkDiagram,
    CalendarView,
    ResourceSheet,
    ResourceUsage,
    TeamPlanner,
    /// Each report stands on its own rather than sharing one page: a report is
    /// figures, a chart and the rows behind it.
    Burndown,
    Burnup,
    Velocity,
    CriticalPath,
}

pub open spec fn view_kind_label(v: ViewKind) -> Seq<char> {
    match v {
        ViewKind::GanttChart => "Gantt Chart"@,
        ViewKind::TrackingGantt => "Tracking Gantt"@,
        ViewKind::TaskSheet => "Task Sheet"@,
        ViewKind::TaskUsage => "Task Usage"@,
        ViewKind::NetworkDiagram => "Network Diagram"@,
        ViewKind::CalendarView => "Calendar"@,
        ViewKind::ResourceSheet => "Resource Sheet"@,
        ViewKind::ResourceUsage => "Resource Usage"@,
        ViewKind::TeamPlanner => "Team Planner"@,
        ViewKind::Burndown => "Burndown"@,
        ViewKind::Burnup => "Burnup"@,
        ViewKind::Velocity => "Velocity"@,
        ViewKind::CriticalPath => "Critical Path"@,
    }
}

pub open spec fn view_kind_tools_label(v: ViewKind) -> Seq<char> {
    match v {
        ViewKind::GanttChart => "Gantt Chart Tools"@,
        ViewKind::TrackingGantt => "Tracking Gantt Tools"@,
        ViewKind::TaskSheet => "Task Sheet Tools"@,
        ViewKind::TaskUsage => "Task Usage Tools"@,
        ViewKind::NetworkDiagram => "Network Diagram Tools"@,
        ViewKind::CalendarView => "Calendar Tools"@,
        ViewKind::ResourceSheet => "Resource Sheet Tools"@,
        ViewKind::ResourceUsage => "Resource Usage Tools"@,
        ViewKind::TeamPlanner => "Team Planner Tools"@,
        ViewKind::Burndown => "Report Tools"@,
        ViewKind::Burnup => "Report Tools"@,
        ViewKind::Velocity => "Report Tools"@,
        ViewKind::CriticalPath => "Report Tools"@,
    }
}

impl ViewKind {
    /// Whether the view draws a timescale down the right-hand side.
    pub fn has_chart(self) -> (r: bool)
        ensures
            r == (self is GanttChart || self is TrackingGantt),
    {
        match self {
            ViewKind::GanttChart | ViewKind::TrackingGantt => true,
            _ => false,
        }
    }

    pub fn label(self) -> (r: &'static str)
        ensures
            r@ == view_kind_label(self),
    {
        match self {
            ViewKind::GanttChart => "Gantt Chart",
            ViewKind::TrackingGantt => "Tracking Gantt",
            ViewKind::TaskSheet => "Task Sheet",
            ViewKind::TaskUsage => "Task Usage",
            ViewKind::NetworkDiagram => "Network Diagram",
            ViewKind::CalendarView => "Calendar",
            ViewKind::ResourceSheet => "Resource Sheet",
            ViewKind::ResourceUsage => "Resource Usage",
            ViewKind::TeamPlanner => "Team Planner",
            ViewKind::Burndown => "Burndown",
            ViewKind::Burnup => "Burnup",
            ViewKind::Velocity => "Velocity",
            ViewKind::CriticalPath => "Critical Path",
        }
    }

    /// The contextual ribbon tab that appears above Format for this view.
    pub fn tools_label(self) -> (r: &'static str)
        ensures
            r@ == view_kind_tools_label(self),
    {
        match self {
            ViewKind::GanttChart => "Gantt Chart Tools",
            ViewKind::TrackingGantt => "Tracking Gantt Tools",
            ViewKind::TaskSheet => "Task Sheet Tools",
            ViewKind::TaskUsage => "Task Usage Tools",
            ViewKind::NetworkDiagram => "Network Diagram Tools",
            ViewKind::CalendarView => "Calendar Tools",
            ViewKind::ResourceSheet => "Resource Sheet Tools",
            ViewKind::ResourceUsage => "Resource Usage Tools",
            ViewKind::TeamPlanner => "Team Planner Tools",
            ViewKind::Burndown => "Report Tools",
            ViewKind::Burnup => "Report Tools",
            ViewKind::Velocity => "Report Tools",
            ViewKind::CriticalPath => "Report Tools",
        }
    }
}

#[derive(Debug, Clone, Copy, PartialEq, Eq, Structural)]
pub enum BackstagePage {
    Home,
    Info,
    New,
    Open,
    Save,
    SaveAs,
    Print,
    Export,
    Import,
    About,
    Options,
}

pub open spec fn backstage_page_label(v: BackstagePage) -> Seq<char> {
    match v {
        BackstagePage::Home => "Home"@,
        BackstagePage::Info => "Info"@,
        BackstagePage::New => "New"@,
        BackstagePage::Open => "Open"@,
        BackstagePage::Save => "Save"@,
        BackstagePage::SaveAs => "Save As"@,
        BackstagePage::Print => "Print"@,
        BackstagePage::Export => "Export"@,
        BackstagePage::Import => "Import"@,
        BackstagePage::About => "About"@,
        BackstagePage::Options => "Options"@,
    }
}

pub open spec fn backstage_page_glyph(v: BackstagePage) -> Seq<char> {
    match v {
        BackstagePage::Home => "home"@,
        BackstagePage::Info => "info-circle"@,
        BackstagePage::New => "file-new"@,
        BackstagePage::Open => "folder-open"@,
        BackstagePage::Save => "save-mono"@,
        BackstagePage::SaveAs => "save-as"@,
        BackstagePage::Print => "printer"@,
        BackstagePage::Export => "file-output"@,
        BackstagePage::Import => "file-input"@,
        BackstagePage::About => "badge-info"@,
        BackstagePage::Options => "settings"@,
    }
}

impl BackstagePage {
    pub fn label(self) -> (r: &'static str)
        ensures
            r@ == backstage_page_label(self),
    {
        match self {
            BackstagePage::Home => "Home",
            BackstagePage::Info => "Info",
            BackstagePage::New => "New",
            BackstagePage::Open => "Open",
            BackstagePage::Save => "Save",
            BackstagePage::SaveAs => "Save As",
            BackstagePage::Print => "Print",
            BackstagePage::Export => "Export",
            BackstagePage::Import => "Import",
            BackstagePage::About => "About",
            BackstagePage::Options => "Options",
        }
    }

    /// The glyph shown beside the entry in the File menu.
    pub fn glyph(self) -> (r: &'static str)
        ensures
            r@ == backstage_page_glyph(self),
    {
        match self {
            BackstagePage::Home => "home",
            BackstagePage::Info => "info-circle",
            BackstagePage::New => "file-new",
            BackstagePage::Open => "folder-open",
            BackstagePage::Save => "save-mono",
            BackstagePage::SaveAs => "save-as",
            BackstagePage::Print => "printer",
            BackstagePage::Export => "file-output",
            BackstagePage::Import => "file-input",
            BackstagePage::About => "badge-info",
            BackstagePage::Options => "settings",
        }
    }
}

/// Where a dragged row will land relative to the row under the pointer.
#[derive(Debug, Clone, Copy, PartialEq, Eq, Structural)]
pub enum DropWhere {
    Above,
    Below,
    /// Nest the dragged block under the target as a child.
    Into,
}

/// Categories down the left of the Options page, as Project groups them.
#[derive(Debug, Clone, Copy, PartialEq, Eq, Structural)]
pub enum OptionsPage {
    General,
    Display,
    Schedule,
    Save,
    Advanced,
    Collaborate,
    Keyboard,
    CustomizeRibbon,
    QuickAccess,
}

pub open spec fn options_page_label(v: OptionsPage) -> Seq<char> {
    match v {
        OptionsPage::General => "General"@,
        OptionsPage::Display => "Display"@,
        OptionsPage::Schedule => "Schedule"@,
        OptionsPage::Save => "Save"@,
        OptionsPage::Advanced => "Advanced"@,
        OptionsPage::Collaborate => "Alterion Collaborate"@,
        OptionsPage::Keyboard => "Keyboard"@,
        OptionsPage::CustomizeRibbon => "Customize Ribbon"@,
        OptionsPage::QuickAccess => "Quick Access Toolbar"@,
    }
}

impl OptionsPage {
    pub const ORDER: [OptionsPage; 9] = [
        OptionsPage::General,
        OptionsPage::Display,
        OptionsPage::Schedule,
        OptionsPage::Save,
        OptionsPage::Advanced,
        OptionsPage::Collaborate,
        OptionsPage::Keyboard,
        OptionsPage::CustomizeRibbon,
        OptionsPage::QuickAccess,
    ];

    pub fn label(self) -> (r: &'static str)
        ensures
            r@ == options_page_label(self),
    {
        match self {
            OptionsPage::General => "General",
            OptionsPage::Display => "Display",
            OptionsPage::Schedule => "Schedule",
            OptionsPage::Save => "Save",
            OptionsPage::Advanced => "Advanced",
            OptionsPage::Collaborate => "Alterion Collaborate",
            OptionsPage::Keyboard => "Keyboard",
            OptionsPage::CustomizeRibbon => "Customize Ribbon",
            OptionsPage::QuickAccess => "Quick Access Toolbar",
        }
    }
}

/// Which internal pane is showing, for the split views.
#[derive(Debug, Clone, Copy, PartialEq, Eq, Structural)]
pub enum PaneFocus {
    Both,
    TableOnly,
    ChartOnly,
}

/// A command that can sit on the Quick Access Toolbar.
#[derive(Debug, Clone, Copy, PartialEq, Eq, Structural)]
pub enum QatCommand {
    New,
    Open,
    Save,
    Print,
    Export,
    Undo,
    Redo,
    Link,
    Unlink,
    TaskInformation,
    AssignResources,
    ProjectInformation,
    SetBaseline,
    ScrollToTask,
    ZoomIn,
    ZoomOut,
    /// Open or close History and Sync.
    Cloud,
    /// Start live editing and copy the link to this plan, in one press.
    Collaborate,
}

pub open spec fn qat_command_label(v: QatCommand) -> Seq<char> {
    match v {
        QatCommand::New => "New"@,
        QatCommand::Open => "Open"@,
        QatCommand::Save => "Save"@,
        QatCommand::Print => "Print"@,
        QatCommand::Export => "Export"@,
        QatCommand::Undo => "Undo"@,
        QatCommand::Redo => "Redo"@,
        QatCommand::Link => "Link the Selected Tasks"@,
        QatCommand::Unlink => "Unlink Tasks"@,
        QatCommand::TaskInformation => "Task Information"@,
        QatCommand::AssignResources => "Assign Resources"@,
        QatCommand::ProjectInformation => "Project Information"@,
        QatCommand::SetBaseline => "Set Baseline"@,
        QatCommand::ScrollToTask => "Scroll to Task"@,
        QatCommand::ZoomIn => "Zoom In"@,
        QatCommand::ZoomOut => "Zoom Out"@,
        QatCommand::Cloud => "History and Sync"@,
        QatCommand::Collaborate => "Collaborate: Start Live Editing and Copy the Link"@,
    }
}

pub open spec fn qat_command_glyph(v: QatCommand) -> Seq<char> {
    match v {
        QatCommand::New => "new"@,
        QatCommand::Open => "open"@,
        QatCommand::Save => "save"@,
        QatCommand::Print => "print"@,
        QatCommand::Export => "export"@,
        QatCommand::Undo => "undo"@,
        QatCommand::Redo => "redo"@,
        QatCommand::Link => "link"@,
        QatCommand::Unlink => "unlink"@,
        QatCommand::TaskInformation => "information"@,
        QatCommand::AssignResources => "assign-resources"@,
        QatCommand::ProjectInformation => "project-info"@,
        QatCommand::SetBaseline => "baseline"@,
        QatCommand::ScrollToTask => "scroll-to-task"@,
        QatCommand::ZoomIn => "zoom-in"@,
        QatCommand::ZoomOut => "zoom-out"@,
        QatCommand::Cloud => "cloud"@,
        QatCommand::Collaborate => "share"@,
    }
}

pub open spec fn qat_command_key(v: QatCommand) -> Seq<char> {
    match v {
        QatCommand::New => "new"@,
        QatCommand::Open => "open"@,
        QatCommand::Save => "save"@,
        QatCommand::Print => "print"@,
        QatCommand::Export => "export"@,
        QatCommand::Undo => "undo"@,
        QatCommand::Redo => "redo"@,
        QatCommand::Link => "link"@,
        QatCommand::Unlink => "unlink"@,
        QatCommand::TaskInformation => "task-info"@,
        QatCommand::AssignResources => "assign"@,
        QatCommand::ProjectInformation => "project-info"@,
        QatCommand::SetBaseline => "baseline"@,
        QatCommand::ScrollToTask => "scroll"@,
        QatCommand::ZoomIn => "zoom-in"@,
        QatCommand::ZoomOut => "zoom-out"@,
        QatCommand::Cloud => "cloud"@,
        QatCommand::Collaborate => "collaborate"@,
    }
}

impl QatCommand {
    pub const ALL: [QatCommand; 18] = [
        QatCommand::New,
        QatCommand::Open,
        QatCommand::Save,
        QatCommand::Print,
        QatCommand::Export,
        QatCommand::Undo,
        QatCommand::Redo,
        QatCommand::Link,
        QatCommand::Unlink,
        QatCommand::TaskInformation,
        QatCommand::AssignResources,
        QatCommand::ProjectInformation,
        QatCommand::SetBaseline,
        QatCommand::ScrollToTask,
        QatCommand::ZoomIn,
        QatCommand::ZoomOut,
        QatCommand::Cloud,
        QatCommand::Collaborate,
    ];

    pub fn label(self) -> (r: &'static str)
        ensures
            r@ == qat_command_label(self),
    {
        match self {
            QatCommand::New => "New",
            QatCommand::Open => "Open",
            QatCommand::Save => "Save",
            QatCommand::Print => "Print",
            QatCommand::Export => "Export",
            QatCommand::Undo => "Undo",
            QatCommand::Redo => "Redo",
            QatCommand::Link => "Link the Selected Tasks",
            QatCommand::Unlink => "Unlink Tasks",
            QatCommand::TaskInformation => "Task Information",
            QatCommand::AssignResources => "Assign Resources",
            QatCommand::ProjectInformation => "Project Information",
            QatCommand::SetBaseline => "Set Baseline",
            QatCommand::ScrollToTask => "Scroll to Task",
            QatCommand::ZoomIn => "Zoom In",
            QatCommand::ZoomOut => "Zoom Out",
            QatCommand::Cloud => "History and Sync",
            QatCommand::Collaborate => "Collaborate: Start Live Editing and Copy the Link",
        }
    }

    pub fn glyph(self) -> (r: &'static str)
        ensures
            r@ == qat_command_glyph(self),
    {
        match self {
            QatCommand::New => "new",
            QatCommand::Open => "open",
            QatCommand::Save => "save",
            QatCommand::Print => "print",
            QatCommand::Export => "export",
            QatCommand::Undo => "undo",
            QatCommand::Redo => "redo",
            QatCommand::Link => "link",
            QatCommand::Unlink => "unlink",
            QatCommand::TaskInformation => "information",
            QatCommand::AssignResources => "assign-resources",
            QatCommand::ProjectInformation => "project-info",
            QatCommand::SetBaseline => "baseline",
            QatCommand::ScrollToTask => "scroll-to-task",
            QatCommand::ZoomIn => "zoom-in",
            QatCommand::ZoomOut => "zoom-out",
            QatCommand::Cloud => "cloud",
            QatCommand::Collaborate => "share",
        }
    }

    /// The name a command is stored under.
    pub fn key(self) -> (r: &'static str)
        ensures
            r@ == qat_command_key(self),
    {
        match self {
            QatCommand::New => "new",
            QatCommand::Open => "open",
            QatCommand::Save => "save",
            QatCommand::Print => "print",
            QatCommand::Export => "export",
            QatCommand::Undo => "undo",
            QatCommand::Redo => "redo",
            QatCommand::Link => "link",
            QatCommand::Unlink => "unlink",
            QatCommand::TaskInformation => "task-info",
            QatCommand::AssignResources => "assign",
            QatCommand::ProjectInformation => "project-info",
            QatCommand::SetBaseline => "baseline",
            QatCommand::ScrollToTask => "scroll",
            QatCommand::ZoomIn => "zoom-in",
            QatCommand::ZoomOut => "zoom-out",
            QatCommand::Cloud => "cloud",
            QatCommand::Collaborate => "collaborate",
        }
    }
}

/// Which rows the views show.
#[derive(Debug, Clone, Copy, PartialEq, Eq, Structural)]
pub enum TaskFilter {
    All,
    Critical,
    Milestones,
    Incomplete,
}

pub open spec fn task_filter_label(v: TaskFilter) -> Seq<char> {
    match v {
        TaskFilter::All => "All Tasks"@,
        TaskFilter::Critical => "Critical"@,
        TaskFilter::Milestones => "Milestones"@,
        TaskFilter::Incomplete => "Incomplete"@,
    }
}

impl TaskFilter {
    pub fn label(self) -> (r: &'static str)
        ensures
            r@ == task_filter_label(self),
    {
        match self {
            TaskFilter::All => "All Tasks",
            TaskFilter::Critical => "Critical",
            TaskFilter::Milestones => "Milestones",
            TaskFilter::Incomplete => "Incomplete",
        }
    }
}

/// What dragging a Gantt bar is doing.
#[derive(Debug, Clone, Copy, PartialEq, Eq, Structural)]
pub enum BarDragKind {
    /// Slide the whole bar, which pins the task with a start constraint.
    Move,
    /// Pull the right edge to change the duration.
    Resize,
    /// Pull from the left edge to set percent complete.
    Progress,
    /// Shift-drag onto another bar to link them.
    Link,
}

/// What the user was doing when unsaved work got in the way, held so the
/// answer to "save first?" can be acted on and then what was asked for
/// carried out.
#[derive(Debug, Clone, PartialEq, Eq)]
pub enum PendingAction {
    /// Quit the application.
    Quit,
    /// Close the plan and start an empty one.
    CloseProject,
    /// Start a new plan from a template.
    NewFromTemplate(String),
    /// Open a file from disk.
    Open(String),
    /// Take the plan the Import page has built and made ready.
    AdoptImport,
}

pub open spec fn pending_action_describe(v: PendingAction) -> Seq<char> {
    match v {
        PendingAction::Quit => "closing"@,
        PendingAction::CloseProject => "closing this plan"@,
        PendingAction::NewFromTemplate(_) => "starting a new plan"@,
        PendingAction::Open(_) => "opening another plan"@,
        PendingAction::AdoptImport => "importing a spreadsheet"@,
    }
}

impl PendingAction {
    /// What the buttons should say this will discard.
    pub fn describe(&self) -> (r: &'static str)
        ensures
            r@ == pending_action_describe(*self),
    {
        match self {
            PendingAction::Quit => "closing",
            PendingAction::CloseProject => "closing this plan",
            PendingAction::NewFromTemplate(_) => "starting a new plan",
            PendingAction::Open(_) => "opening another plan",
            PendingAction::AdoptImport => "importing a spreadsheet",
        }
    }
}

#[derive(Debug, Clone, Copy, PartialEq, Eq, Structural)]
pub enum Zoom {
    Days,
    Weeks,
    Months,
    Quarters,
}

pub open spec fn zoom_label(v: Zoom) -> Seq<char> {
    match v {
        Zoom::Days => "Days"@,
        Zoom::Weeks => "Weeks"@,
        Zoom::Months => "Months"@,
        Zoom::Quarters => "Quarters"@,
    }
}

impl Zoom {
    pub const ORDER: [Zoom; 4] = [Zoom::Days, Zoom::Weeks, Zoom::Months, Zoom::Quarters];

    /// One step closer in: a quarter becomes months, months become weeks, and
    /// anything finer becomes days.
    pub fn zoom_in(self) -> (r: Zoom)
        ensures
            r == (match self {
                Zoom::Quarters => Zoom::Months,
                Zoom::Months => Zoom::Weeks,
                _ => Zoom::Days,
            }),
    {
        match self {
            Zoom::Quarters => Zoom::Months,
            Zoom::Months => Zoom::Weeks,
            _ => Zoom::Days,
        }
    }

    /// One step further out, stopping at quarters.
    pub fn zoom_out(self) -> (r: Zoom)
        ensures
            r == (match self {
                Zoom::Days => Zoom::Weeks,
                Zoom::Weeks => Zoom::Months,
                _ => Zoom::Quarters,
            }),
    {
        match self {
            Zoom::Days => Zoom::Weeks,
            Zoom::Weeks => Zoom::Months,
            _ => Zoom::Quarters,
        }
    }

    pub fn label(self) -> (r: &'static str)
        ensures
            r@ == zoom_label(self),
    {
        match self {
            Zoom::Days => "Days",
            Zoom::Weeks => "Weeks",
            Zoom::Months => "Months",
            Zoom::Quarters => "Quarters",
        }
    }
}

/// The grid column a cell edit is targeting.
#[derive(Debug, Clone, Copy, PartialEq, Eq, Structural)]
pub enum Column {
    Name,
    Duration,
    Start,
    Finish,
    Predecessors,
    /// The other end of the same links `Predecessors` edits.
    Successors,
    Resources,
}

/// What the network is doing, so a button can say so rather than looking
/// broken.
#[derive(Debug, Clone, Copy, PartialEq, Eq, Structural)]
pub enum Working {
    SigningIn,
    SigningOut,
    Syncing,
    Fetching,
    Publishing,
    Checking,
    RunningHealthCheck,
    ReadingAccount,
    ReadingSharing,
    ChangingSharing,
}

pub open spec fn working_waiting(v: Working) -> Seq<char> {
    match v {
        Working::SigningIn => "Your browser has opened. This window is waiting for you to finish signing in there."@,
        Working::SigningOut => "Signing out..."@,
        Working::Syncing => "Sending your changes and asking for anything new..."@,
        Working::Fetching => "Fetching a fresh copy of the plan from the server..."@,
        Working::Publishing => "Putting this plan on the server..."@,
        Working::Checking => "Asking the server where this plan has got to..."@,
        Working::RunningHealthCheck => "Checking the server and the sign in..."@,
        Working::ReadingAccount => "Reading your account details again..."@,
        Working::ReadingSharing => "Asking the server who this plan is shared with..."@,
        Working::ChangingSharing => "Telling the server who this plan is shared with..."@,
    }
}

impl Working {
    /// What to show while it runs.
    pub fn waiting(self) -> (r: &'static str)
        ensures
            r@ == working_waiting(self),
    {
        match self {
            Working::SigningIn => "Your browser has opened. This window is waiting for you to finish signing in there.",
            Working::SigningOut => "Signing out...",
            Working::Syncing => "Sending your changes and asking for anything new...",
            Working::Fetching => "Fetching a fresh copy of the plan from the server...",
            Working::Publishing => "Putting this plan on the server...",
            Working::Checking => "Asking the server where this plan has got to...",
            Working::RunningHealthCheck => "Checking the server and the sign in...",
            Working::ReadingAccount => "Reading your account details again...",
            Working::ReadingSharing => "Asking the server who this plan is shared with...",
            Working::ChangingSharing => "Telling the server who this plan is shared with...",
        }
    }
}

#[derive(Debug, Clone, PartialEq, Eq)]
pub enum CheckOutcome {
    /// Asked, and the server agreed this copy has everything.
    Current,
    /// The server holds work this copy has not read.
    Behind { by: i64 },
    /// The question could not be put.
    Failed(String),
}

/// A file opened recently: what to call it and where it is.
#[derive(Debug, Clone, PartialEq)]
pub struct RecentEntry {
    pub name: String,
    pub path: String,
}

/// Every command that can sit on the toolbar, in the order they are offered.
pub open spec fn qat_all() -> Seq<QatCommand> {
    seq![
        QatCommand::New,
        QatCommand::Open,
        QatCommand::Save,
        QatCommand::Print,
        QatCommand::Export,
        QatCommand::Undo,
        QatCommand::Redo,
        QatCommand::Link,
        QatCommand::Unlink,
        QatCommand::TaskInformation,
        QatCommand::AssignResources,
        QatCommand::ProjectInformation,
        QatCommand::SetBaseline,
        QatCommand::ScrollToTask,
        QatCommand::ZoomIn,
        QatCommand::ZoomOut,
        QatCommand::Cloud,
        QatCommand::Collaborate,
    ]
}

fn all_commands() -> (v: Vec<QatCommand>)
    ensures
        v@ == qat_all(),
{
    let v = vec![
        QatCommand::New,
        QatCommand::Open,
        QatCommand::Save,
        QatCommand::Print,
        QatCommand::Export,
        QatCommand::Undo,
        QatCommand::Redo,
        QatCommand::Link,
        QatCommand::Unlink,
        QatCommand::TaskInformation,
        QatCommand::AssignResources,
        QatCommand::ProjectInformation,
        QatCommand::SetBaseline,
        QatCommand::ScrollToTask,
        QatCommand::ZoomIn,
        QatCommand::ZoomOut,
        QatCommand::Cloud,
        QatCommand::Collaborate,
    ];
    proof {
        assert(v@ =~= qat_all());
    }
    v
}

/// The first command in a list whose stored name is `key`.
pub open spec fn command_named(commands: Seq<QatCommand>, key: Seq<char>) -> Option<QatCommand>
    decreases commands.len(),
{
    if commands.len() == 0 {
        None
    } else if qat_command_key(commands[0]) == key {
        Some(commands[0])
    } else {
        command_named(commands.skip(1), key)
    }
}

impl QatCommand {
    /// The command stored under a name, if any is.
    pub fn from_key(key: &str) -> (r: Option<QatCommand>)
        ensures
            r == command_named(qat_all(), key@),
    {
        let all = all_commands();
        let mut i: usize = 0;
        proof {
            assert(all@.skip(0) =~= all@);
        }
        while i < all.len()
            invariant
                i <= all.len(),
                all@ == qat_all(),
                command_named(qat_all(), key@) == command_named(all@.skip(i as int), key@),
            decreases all.len() - i,
        {
            let c = all[i];
            proof {
                assert(all@.skip(i as int)[0] == c);
                assert(all@.skip(i as int).len() > 0);
            }
            if crate::text::same_text(c.key(), key) {
                return Some(c);
            }
            proof {
                assert(all@.skip(i as int).skip(1) =~= all@.skip(i + 1));
            }
            i += 1;
        }
        None
    }
}

/// Every command comes back from the name it is stored under.
pub proof fn a_command_survives_its_key(c: QatCommand)
    ensures
        command_named(qat_all(), qat_command_key(c)) == Some(c),
{
    reveal_strlit("new");
    reveal_strlit("open");
    reveal_strlit("save");
    reveal_strlit("print");
    reveal_strlit("export");
    reveal_strlit("undo");
    reveal_strlit("redo");
    reveal_strlit("link");
    reveal_strlit("unlink");
    reveal_strlit("task-info");
    reveal_strlit("assign");
    reveal_strlit("project-info");
    reveal_strlit("baseline");
    reveal_strlit("scroll");
    reveal_strlit("zoom-in");
    reveal_strlit("zoom-out");
    reveal_strlit("cloud");
    reveal_strlit("collaborate");
    let all = qat_all();
    assert forall|i: int, j: int| 0 <= i < 18 && 0 <= j < 18 && i != j implies qat_command_key(
        #[trigger] all[i],
    ) != qat_command_key(#[trigger] all[j]) by {
        let a = qat_command_key(all[i]);
        let b = qat_command_key(all[j]);
        if a == b {
            assert(a.len() == b.len());
            assert(a[0] == b[0]);
        }
    }
    lemma_named_in(all, c);
}

proof fn lemma_named_in(commands: Seq<QatCommand>, c: QatCommand)
    requires
        commands.contains(c),
        forall|i: int, j: int|
            0 <= i < commands.len() && 0 <= j < commands.len() && i != j ==> qat_command_key(
                #[trigger] commands[i],
            ) != qat_command_key(#[trigger] commands[j]),
    ensures
        command_named(commands, qat_command_key(c)) == Some(c),
    decreases commands.len(),
{
    if commands[0] != c {
        let k = choose|k: int| 0 <= k < commands.len() && commands[k] == c;
        assert(k != 0);
        assert(commands.skip(1)[k - 1] == c);
        assert forall|i: int, j: int|
            0 <= i < commands.skip(1).len() && 0 <= j < commands.skip(1).len() && i != j implies qat_command_key(
            #[trigger] commands.skip(1)[i],
        ) != qat_command_key(#[trigger] commands.skip(1)[j]) by {
            assert(commands.skip(1)[i] == commands[i + 1]);
            assert(commands.skip(1)[j] == commands[j + 1]);
        }
        assert(qat_command_key(commands[0]) != qat_command_key(c)) by {
            assert(commands[0] == commands[0]);
            assert(commands[k] == c);
        }
        lemma_named_in(commands.skip(1), c);
    }
}

/// The buttons a fresh install starts with.
pub open spec fn default_qat() -> Seq<QatCommand> {
    seq![
        QatCommand::Save,
        QatCommand::Undo,
        QatCommand::Redo,
        QatCommand::Link,
        QatCommand::Unlink,
        QatCommand::TaskInformation,
        QatCommand::AssignResources,
    ]
}

pub fn default_qat_commands() -> (v: Vec<QatCommand>)
    ensures
        v@ == default_qat(),
{
    let v = vec![
        QatCommand::Save,
        QatCommand::Undo,
        QatCommand::Redo,
        QatCommand::Link,
        QatCommand::Unlink,
        QatCommand::TaskInformation,
        QatCommand::AssignResources,
    ];
    proof {
        assert(v@ =~= default_qat());
    }
    v
}

// ------------------------------------------------------------ the toolbar

/// Where `x` first occurs in `s`.
pub open spec fn position<A>(s: Seq<A>, x: A) -> Option<nat>
    decreases s.len(),
{
    if s.len() == 0 {
        None
    } else if s[0] == x {
        Some(0)
    } else {
        match position(s.skip(1), x) {
            Some(i) => Some(i + 1),
            None => None,
        }
    }
}

pub proof fn lemma_position<A>(s: Seq<A>, x: A)
    ensures
        match position(s, x) {
            Some(i) => i < s.len() && s[i as int] == x && forall|k: int| 0 <= k < i ==> s[k] != x,
            None => !s.contains(x),
        },
    decreases s.len(),
{
    if s.len() > 0 && s[0] != x {
        lemma_position(s.skip(1), x);
        match position(s.skip(1), x) {
            Some(i) => {
                assert forall|k: int| 0 <= k < i + 1 implies s[k] != x by {
                    if k > 0 {
                        assert(s[k] == s.skip(1)[k - 1]);
                    }
                }
            },
            None => {
                if s.contains(x) {
                    let k = choose|k: int| 0 <= k < s.len() && s[k] == x;
                    assert(s.skip(1)[k - 1] == x);
                }
            },
        }
    }
}

fn position_of(s: &Vec<QatCommand>, x: QatCommand) -> (r: Option<usize>)
    ensures
        match r {
            Some(k) => position(s@, x) == Some(k as nat),
            None => position(s@, x) is None,
        },
{
    proof {
        lemma_position(s@, x);
    }
    let mut i: usize = 0;
    while i < s.len()
        invariant
            i <= s.len(),
            forall|k: int| 0 <= k < i ==> s@[k] != x,
        decreases s.len() - i,
    {
        if s[i] == x {
            proof {
                lemma_position(s@, x);
                match position(s@, x) {
                    Some(j) => {
                        if j < i {
                            assert(s@[j as int] != x);
                        } else if j > i {
                            assert(s@[i as int] != x);
                        }
                    },
                    None => {
                        assert(s@.contains(x));
                    },
                }
            }
            return Some(i);
        }
        i += 1;
    }
    proof {
        lemma_position(s@, x);
        match position(s@, x) {
            Some(j) => {
                assert(s@[j as int] != x);
            },
            None => {},
        }
    }
    None
}

/// Take a command off the toolbar if it is there, or put it on the end if it
/// is not.
pub fn toggle_qat(qat: &mut Vec<QatCommand>, command: QatCommand)
    ensures
        match position(old(qat)@, command) {
            Some(i) => final(qat)@ == old(qat)@.remove(i as int),
            None => final(qat)@ == old(qat)@.push(command),
        },
{
    proof {
        lemma_position(qat@, command);
    }
    match position_of(qat, command) {
        Some(index) => {
            qat.remove(index);
        },
        None => qat.push(command),
    }
}

/// Move a command along the toolbar by `delta` places, when that lands
/// somewhere on it.
pub fn move_qat(qat: &mut Vec<QatCommand>, command: QatCommand, delta: isize)
    ensures
        match position(old(qat)@, command) {
            Some(i) => {
                let target = i + delta;
                if target < 0 || target >= old(qat)@.len() {
                    final(qat)@ == old(qat)@
                } else {
                    final(qat)@ == old(qat)@.update(i as int, old(qat)@[target]).update(
                        target,
                        old(qat)@[i as int],
                    )
                }
            },
            None => final(qat)@ == old(qat)@,
        },
{
    let index = match position_of(qat, command) {
        Some(index) => index,
        None => {
            return;
        },
    };
    proof {
        lemma_position(qat@, command);
    }
    if delta < 0 {
        let back = (0isize - (delta + 1)) as usize;
        if back >= index {
            return;
        }
        let target = index - back - 1;
        let a = qat[index];
        let b = qat[target];
        qat.set(index, b);
        qat.set(target, a);
    } else {
        let forward = delta as usize;
        if forward >= qat.len() - index {
            return;
        }
        let target = index + forward;
        let a = qat[index];
        let b = qat[target];
        qat.set(index, b);
        qat.set(target, a);
    }
}

/// Put the toolbar back to the buttons a fresh install starts with.
pub fn reset_qat(qat: &mut Vec<QatCommand>)
    ensures
        final(qat)@ == default_qat(),
{
    *qat = default_qat_commands();
}

/// The commands a stored list of names restores: each name that names one,
/// in order, or the default toolbar when none does.
pub open spec fn restored_commands(keys: Seq<Seq<char>>) -> Seq<QatCommand>
    decreases keys.len(),
{
    if keys.len() == 0 {
        Seq::empty()
    } else {
        let before = restored_commands(keys.drop_last());
        match command_named(qat_all(), keys.last()) {
            Some(c) => before.push(c),
            None => before,
        }
    }
}

pub open spec fn string_views(v: Seq<String>) -> Seq<Seq<char>> {
    Seq::new(v.len(), |i: int| v[i]@)
}

/// The toolbar a stored list of names brings back.
pub fn qat_from_keys(keys: &Vec<String>) -> (r: Vec<QatCommand>)
    ensures
        r@ == (if restored_commands(string_views(keys@)).len() == 0 {
            default_qat()
        } else {
            restored_commands(string_views(keys@))
        }),
{
    let mut restored: Vec<QatCommand> = Vec::new();
    let mut i: usize = 0;
    while i < keys.len()
        invariant
            i <= keys.len(),
            restored@ == restored_commands(string_views(keys@).take(i as int)),
        decreases keys.len() - i,
    {
        let found = QatCommand::from_key(keys[i].as_str());
        proof {
            assert(string_views(keys@).take(i + 1).drop_last() =~= string_views(keys@).take(
                i as int,
            ));
            assert(string_views(keys@).take(i + 1).last() == keys@[i as int]@);
        }
        match found {
            Some(c) => restored.push(c),
            None => {},
        }
        i += 1;
    }
    proof {
        assert(string_views(keys@).take(keys.len() as int) =~= string_views(keys@));
    }
    if restored.len() == 0 {
        default_qat_commands()
    } else {
        restored
    }
}

/// The names a toolbar is stored under, in order.
pub fn qat_keys(commands: &Vec<QatCommand>) -> (r: Vec<&'static str>)
    ensures
        r@.len() == commands@.len(),
        forall|i: int| 0 <= i < r@.len() ==> (#[trigger] r@[i])@ == qat_command_key(commands@[i]),
{
    let mut r: Vec<&'static str> = Vec::new();
    let mut i: usize = 0;
    while i < commands.len()
        invariant
            i <= commands.len(),
            r@.len() == i,
            forall|k: int| 0 <= k < i ==> (#[trigger] r@[k])@ == qat_command_key(commands@[k]),
        decreases commands.len() - i,
    {
        r.push(commands[i].key());
        i += 1;
    }
    r
}

/// Toggling a command that is not on the toolbar, and then toggling it
/// again, leaves the toolbar as it was.
pub proof fn toggling_twice_puts_it_back(qat: Seq<QatCommand>, c: QatCommand)
    requires
        !qat.contains(c),
    ensures
        position(qat.push(c), c) == Some(qat.len()),
        qat.push(c).remove(qat.len() as int) == qat,
{
    lemma_position(qat.push(c), c);
    lemma_position(qat, c);
    match position(qat.push(c), c) {
        Some(i) => {
            if i < qat.len() {
                assert(qat[i as int] == c);
            }
        },
        None => {
            assert(qat.push(c)[qat.len() as int] == c);
        },
    }
    assert(qat.push(c).remove(qat.len() as int) =~= qat);
}

/// Toggling never puts a command on the toolbar twice.
pub proof fn toggling_keeps_each_command_once(qat: Seq<QatCommand>, c: QatCommand)
    requires
        qat.no_duplicates(),
    ensures
        match position(qat, c) {
            Some(i) => qat.remove(i as int).no_duplicates(),
            None => qat.push(c).no_duplicates(),
        },
{
    lemma_position(qat, c);
    match position(qat, c) {
        Some(i) => {
            let r = qat.remove(i as int);
            assert forall|a: int, b: int| 0 <= a < r.len() && 0 <= b < r.len() && a != b implies r[a]
                != r[b] by {
                let a2 = if a < i { a } else { a + 1 };
                let b2 = if b < i { b } else { b + 1 };
                assert(r[a] == qat[a2]);
                assert(r[b] == qat[b2]);
            }
        },
        None => {
            let r = qat.push(c);
            assert forall|a: int, b: int| 0 <= a < r.len() && 0 <= b < r.len() && a != b implies r[a]
                != r[b] by {
                if a < qat.len() && b < qat.len() {
                } else if a < qat.len() {
                    assert(qat.contains(r[a]));
                } else if b < qat.len() {
                    assert(qat.contains(r[b]));
                }
            }
        },
    }
}

// ------------------------------------------------------------ recent files

/// How many files the recent list keeps.
pub const RECENT_LIMIT: usize = 12;

pub open spec fn entry_view(e: RecentEntry) -> (Seq<char>, Seq<char>) {
    (e.name@, e.path@)
}

pub open spec fn entries_view(s: Seq<RecentEntry>) -> Seq<(Seq<char>, Seq<char>)> {
    Seq::new(s.len(), |i: int| entry_view(s[i]))
}

/// The named parts of a path, in order: what lies between its separators,
/// with empty parts and `.` left out, as `Path::components` reads a path.
pub open spec fn path_parts(pieces: Seq<Seq<char>>) -> Seq<Seq<char>>
    decreases pieces.len(),
{
    if pieces.len() == 0 {
        Seq::empty()
    } else {
        let before = path_parts(pieces.drop_last());
        if pieces.last().len() == 0 || pieces.last() == seq!['.'] {
            before
        } else {
            before.push(pieces.last())
        }
    }
}

/// Whether a path starts at the root.
pub open spec fn rooted(path: Seq<char>) -> bool {
    path.len() > 0 && path[0] == '/'
}

/// Whether a path starts with a `.` of its own, the one place `.` counts.
pub open spec fn from_here(path: Seq<char>) -> bool {
    path.len() > 0 && path[0] == '.' && (path.len() == 1 || path[1] == '/')
}

/// Whether two paths name the same place the way `Path`'s `==` compares
/// them: component by component, so repeated separators, a `.` inside the
/// path and a trailing separator make no difference.
pub open spec fn same_path(a: Seq<char>, b: Seq<char>) -> bool {
    rooted(a) == rooted(b) && from_here(a) == from_here(b) && path_parts(split(a, '/'))
        == path_parts(split(b, '/'))
}

fn parts_of_path(path: &str) -> (r: (bool, bool, Vec<Vec<char>>))
    ensures
        r.0 == rooted(path@),
        r.1 == from_here(path@),
        views(r.2@) == path_parts(split(path@, '/')),
{
    let chars = chars_of(path);
    let pieces = split_chars(&chars, '/');
    let ghost all = views(pieces@);
    let mut parts: Vec<Vec<char>> = Vec::new();
    let mut i: usize = 0;
    while i < pieces.len()
        invariant
            i <= pieces.len(),
            all == views(pieces@),
            views(parts@) == path_parts(all.take(i as int)),
        decreases pieces.len() - i,
    {
        proof {
            assert(all.take(i + 1).drop_last() =~= all.take(i as int));
            assert(all.take(i + 1).last() == pieces@[i as int]@);
        }
        let piece = &pieces[i];
        let dot = piece.len() == 1 && piece[0] == '.';
        proof {
            if piece@.len() == 1 && piece@[0] == '.' {
                assert(piece@ =~= seq!['.']);
            }
        }
        if piece.len() > 0 && !dot {
            let ghost had = parts@;
            parts.push(slice_chars(piece, 0, piece.len()));
            proof {
                assert(piece@.subrange(0, piece@.len() as int) =~= piece@);
                assert(views(parts@) =~= views(had).push(piece@));
            }
        }
        i += 1;
    }
    proof {
        assert(all.take(pieces.len() as int) =~= all);
    }
    let root = chars.len() > 0 && chars[0] == '/';
    let here = chars.len() > 0 && chars[0] == '.' && (chars.len() == 1 || chars[1] == '/');
    (root, here, parts)
}

/// Whether two paths name the same place, as [`same_path`] says.
pub fn paths_match(a: &str, b: &str) -> (r: bool)
    ensures
        r == same_path(a@, b@),
{
    let (ra, ha, pa) = parts_of_path(a);
    let (rb, hb, pb) = parts_of_path(b);
    if ra != rb || ha != hb || pa.len() != pb.len() {
        proof {
            if pa.len() != pb.len() {
                assert(views(pa@).len() != views(pb@).len());
            }
        }
        return false;
    }
    let mut i: usize = 0;
    while i < pa.len()
        invariant
            i <= pa.len(),
            pa.len() == pb.len(),
            views(pa@) == path_parts(split(a@, '/')),
            views(pb@) == path_parts(split(b@, '/')),
            forall|k: int| 0 <= k < i ==> #[trigger] views(pa@)[k] == views(pb@)[k],
        decreases pa.len() - i,
    {
        if !same_chars(&pa[i], &pb[i]) {
            proof {
                assert(views(pa@)[i as int] != views(pb@)[i as int]);
            }
            return false;
        }
        i += 1;
    }
    proof {
        assert(views(pa@) =~= views(pb@));
    }
    true
}

/// The entries that are not at `path`, in order, a path that names the same
/// place counting as the same.
pub open spec fn elsewhere(s: Seq<(Seq<char>, Seq<char>)>, path: Seq<char>) -> Seq<
    (Seq<char>, Seq<char>),
>
    decreases s.len(),
{
    if s.len() == 0 {
        Seq::empty()
    } else if same_path(s.last().1, path) {
        elsewhere(s.drop_last(), path)
    } else {
        elsewhere(s.drop_last(), path).push(s.last())
    }
}

/// The recent list once a file has been opened: that file first, whatever
/// was there before it after it with any earlier mention of the same file
/// taken out, and no more than [`RECENT_LIMIT`] in all.
pub open spec fn recent_after(
    s: Seq<(Seq<char>, Seq<char>)>,
    name: Seq<char>,
    path: Seq<char>,
) -> Seq<(Seq<char>, Seq<char>)> {
    let all = seq![(name, path)] + elsewhere(s, path);
    if all.len() > RECENT_LIMIT {
        all.take(RECENT_LIMIT as int)
    } else {
        all
    }
}

/// Put a file at the front of the recent list.
pub fn push_recent(recent: &mut Vec<RecentEntry>, name: String, path: String)
    ensures
        entries_view(final(recent)@) == recent_after(entries_view(old(recent)@), name@, path@),
{
    let ghost before = entries_view(recent@);
    let mut kept: Vec<RecentEntry> = Vec::new();
    kept.push(RecentEntry { name, path: path.clone() });
    let mut i: usize = 0;
    while i < recent.len()
        invariant
            i <= recent.len(),
            before == entries_view(recent@),
            entries_view(kept@) == seq![(name@, path@)] + elsewhere(before.take(i as int), path@),
        decreases recent.len() - i,
    {
        let entry = RecentEntry { name: recent[i].name.clone(), path: recent[i].path.clone() };
        proof {
            assert(before.take(i + 1).drop_last() =~= before.take(i as int));
            assert(before.take(i + 1).last() == entry_view(recent@[i as int]));
        }
        let same = paths_match(entry.path.as_str(), path.as_str());
        if !same {
            let ghost had = kept@;
            kept.push(entry);
            proof {
                assert(entries_view(kept@) =~= entries_view(had).push(entry_view(entry)));
            }
        }
        i += 1;
        proof {
            assert(entries_view(kept@) =~= seq![(name@, path@)] + elsewhere(
                before.take(i as int),
                path@,
            ));
        }
    }
    proof {
        assert(before.take(recent.len() as int) =~= before);
    }
    if kept.len() > RECENT_LIMIT {
        kept.truncate(RECENT_LIMIT);
        proof {
            assert(entries_view(kept@) =~= (seq![(name@, path@)] + elsewhere(before, path@)).take(
                RECENT_LIMIT as int,
            ));
        }
    }
    *recent = kept;
}

proof fn lemma_elsewhere_has_not(s: Seq<(Seq<char>, Seq<char>)>, path: Seq<char>)
    ensures
        forall|i: int| 0 <= i < elsewhere(s, path).len() ==> !same_path(
            (#[trigger] elsewhere(s, path)[i]).1,
            path,
        ),
        elsewhere(s, path).len() <= s.len(),
    decreases s.len(),
{
    if s.len() > 0 {
        lemma_elsewhere_has_not(s.drop_last(), path);
    }
}

/// The file just opened is first in the recent list, nothing after it names
/// the same place, and the list never grows past its limit.
pub proof fn the_file_just_opened_leads_the_list(
    s: Seq<(Seq<char>, Seq<char>)>,
    name: Seq<char>,
    path: Seq<char>,
)
    ensures
        recent_after(s, name, path)[0] == (name, path),
        forall|i: int| 0 < i < recent_after(s, name, path).len() ==> !same_path(
            (#[trigger] recent_after(s, name, path)[i]).1,
            path,
        ),
        recent_after(s, name, path).len() <= RECENT_LIMIT,
{
    lemma_elsewhere_has_not(s, path);
    let all = seq![(name, path)] + elsewhere(s, path);
    assert forall|i: int| 0 < i < all.len() implies !same_path((#[trigger] all[i]).1, path) by {
        assert(all[i] == elsewhere(s, path)[i - 1]);
    }
}

// ------------------------------------------------------------ words

/// "1 task" or "4 tasks", so a sentence can be built without a stray plural.
pub open spec fn tasks_text(count: nat) -> Seq<char> {
    if count == 1 {
        "1 task"@
    } else {
        decimal(count) + " tasks"@
    }
}

pub open spec fn rows_text(count: nat) -> Seq<char> {
    if count == 1 {
        "1 row"@
    } else {
        decimal(count) + " rows"@
    }
}

/// "1 task" or "4 tasks".
pub fn tasks_phrase(count: usize) -> (r: String)
    ensures
        r@ == tasks_text(count as nat),
{
    if count == 1 {
        return String::from_str("1 task");
    }
    let mut r = decimal_string(count as u64);
    r.append(" tasks");
    r
}

/// "1 row" or "4 rows".
pub fn rows_phrase(count: usize) -> (r: String)
    ensures
        r@ == rows_text(count as nat),
{
    if count == 1 {
        return String::from_str("1 row");
    }
    let mut r = decimal_string(count as u64);
    r.append(" rows");
    r
}

/// The last line of a text, as `str::lines().next_back()` gives it: a final
/// newline does not start another line, and nothing at all has no last line.
pub open spec fn last_line(s: Seq<char>) -> Seq<char> {
    let pieces = split(s, '\n');
    if pieces.len() > 1 && pieces.last().len() == 0 {
        pieces[pieces.len() - 2]
    } else {
        pieces.last()
    }
}

/// Whether a change log entry is itself an undo or a redo, which is what
/// stops the two of them naming each other's work in turn: its script ends
/// with one of those two commands.
pub open spec fn is_undo_script(script: Seq<char>) -> bool {
    trim(last_line(script)) == "undo();"@ || trim(last_line(script)) == "redo();"@
}

pub fn is_undo_entry(script: &str) -> (r: bool)
    ensures
        r == is_undo_script(script@),
{
    let pieces = split_chars(&chars_of(script), '\n');
    proof {
        lemma_split_nonempty(script@, '\n');
        assert(views(pieces@).len() == pieces@.len());
    }
    let n = pieces.len();
    let last = if n > 1 && pieces[n - 1].len() == 0 {
        proof {
            assert(views(pieces@)[n - 1] == pieces@[n - 1]@);
            assert(views(pieces@)[n - 2] == pieces@[n - 2]@);
        }
        trim_chars(&pieces[n - 2])
    } else {
        proof {
            assert(views(pieces@)[n - 1] == pieces@[n - 1]@);
        }
        trim_chars(&pieces[n - 1])
    };
    same_chars(&last, &chars_of("undo();")) || same_chars(&last, &chars_of("redo();"))
}

/// The window's title: the file's name, or the plan's when it has none, with
/// a star while there is unsaved work.
pub fn document_title(name: &str, dirty: bool) -> (r: String)
    ensures
        r@ == name@ + (if dirty {
            "*"@
        } else {
            Seq::empty()
        }),
{
    let mut r = String::from_str(name);
    if dirty {
        r.append("*");
    }
    r
}

// ------------------------------------------------------------ dates

/// The date styles offered on the Display options page: what the option
/// shows, and the `chrono` pattern it stands for.
pub const DATE_FORMATS: [(&'static str, &'static str); 5] = [
    ("Mon 17/08/26", "%a %d/%m/%y"),
    ("17/08/2026", "%d/%m/%Y"),
    ("Mon 17 Aug '26", "%a %d %b '%y"),
    ("17 August 2026", "%d %B %Y"),
    ("2026-08-17", "%Y-%m-%d"),
];

pub open spec fn date_patterns() -> Seq<Seq<char>> {
    seq!["%a %d/%m/%y"@, "%d/%m/%Y"@, "%a %d %b '%y"@, "%d %B %Y"@, "%Y-%m-%d"@]
}

/// The style a stored choice selects: one past the end is the last style.
pub fn date_format_slot(index: usize) -> (r: usize)
    ensures
        r == (if index < 4 {
            index
        } else {
            4
        }),
{
    if index < 4 {
        index
    } else {
        4
    }
}

/// The `chrono` pattern a choice picked, or the first style for one that
/// names none.
pub fn date_pattern(index: usize) -> (r: &'static str)
    ensures
        r@ == (if index < 5 {
            date_patterns()[index as int]
        } else {
            date_patterns()[0]
        }),
{
    match index {
        1 => "%d/%m/%Y",
        2 => "%a %d %b '%y",
        3 => "%d %B %Y",
        4 => "%Y-%m-%d",
        _ => "%a %d/%m/%y",
    }
}

// ------------------------------------------------------------ panes and files

/// Maximise one pane of a split view, or restore both when it already is.
/// Format is the chart's contextual tab and goes with the chart, so leaving
/// the table alone moves the ribbon back to Task.
pub fn toggle_pane(focus: PaneFocus, tab: RibbonTab, pane: PaneFocus) -> (r: (PaneFocus, RibbonTab))
    ensures
        r.0 == (if focus == pane {
            PaneFocus::Both
        } else {
            pane
        }),
        r.1 == (if r.0 == PaneFocus::TableOnly && tab == RibbonTab::Format {
            RibbonTab::Task
        } else {
            tab
        }),
{
    let focus = if focus == pane {
        PaneFocus::Both
    } else {
        pane
    };
    let tab = if focus == PaneFocus::TableOnly && tab == RibbonTab::Format {
        RibbonTab::Task
    } else {
        tab
    };
    (focus, tab)
}

/// How many numbered names are tried beside a taken one before giving up.
pub const NAME_TRIES: u32 = 999;

pub open spec fn name_beside_text(stem: Seq<char>, n: nat, extension: Option<Seq<char>>) -> Seq<
    char,
> {
    stem + " ("@ + decimal(n) + ")"@ + match extension {
        Some(e) => "."@ + e,
        None => Seq::empty(),
    }
}

/// The numbered name beside a taken one: `plan.aprj` becomes `plan (1).aprj`,
/// the number going before the extension so the file is still a plan file.
pub fn name_beside(stem: &str, n: u32, extension: Option<&str>) -> (r: String)
    ensures
        r@ == name_beside_text(
            stem@,
            n as nat,
            match extension {
                Some(e) => Some(e@),
                None => None,
            },
        ),
{
    let mut r = String::from_str(stem);
    r.append(" (");
    let number = decimal_string(n as u64);
    r.append(number.as_str());
    r.append(")");
    match extension {
        Some(e) => {
            r.append(".");
            r.append(e);
        },
        None => {},
    }
    r
}

/// The name to try `n`-th beside a taken one, counting from one, or nothing
/// once [`NAME_TRIES`] names have been tried: a folder holding every one of
/// them is stranger than one more overwrite prompt, and an unbounded search
/// on a slow filesystem is a hang.
pub fn nth_name_beside(stem: &str, n: u32, extension: Option<&str>) -> (r: Option<String>)
    ensures
        1 <= n <= NAME_TRIES ==> (r matches Some(name) && name@ == name_beside_text(
            stem@,
            n as nat,
            match extension {
                Some(e) => Some(e@),
                None => None,
            },
        )),
        !(1 <= n <= NAME_TRIES) ==> r is None,
{
    if n < 1 || n > NAME_TRIES {
        return None;
    }
    Some(name_beside(stem, n, extension))
}

/// What guarding an action against unsaved work comes to.
#[derive(Debug, Clone, PartialEq, Eq)]
pub enum Guarded {
    /// Ask about the unsaved work first, remembering what was asked for.
    Ask(PendingAction),
    /// Nothing is at stake, so go ahead.
    Proceed(PendingAction),
}

/// The one place that decides whether the question about unsaved work needs
/// asking, rather than each command remembering to ask.
pub fn guard(dirty: bool, action: PendingAction) -> (r: Guarded)
    ensures
        r == (if dirty {
            Guarded::Ask(action)
        } else {
            Guarded::Proceed(action)
        }),
{
    if dirty {
        Guarded::Ask(action)
    } else {
        Guarded::Proceed(action)
    }
}

// ------------------------------------------------------------ talking to the server

pub open spec fn sent_text(count: nat) -> Seq<char> {
    if count == 0 {
        "Already up to date. Nothing was waiting to go."@
    } else if count == 1 {
        "1 change sent."@
    } else {
        decimal(count) + " changes sent."@
    }
}

/// What a push the server applied says, by how many changes it took.
pub fn sent_message(count: usize) -> (r: String)
    ensures
        r@ == sent_text(count as nat),
{
    match count {
        0 => String::from_str("Already up to date. Nothing was waiting to go."),
        1 => String::from_str("1 change sent."),
        many => {
            let mut r = decimal_string(many as u64);
            r.append(" changes sent.");
            r
        },
    }
}

/// What the server's head says about this copy's cursor: behind by the
/// difference when the server is further on, current otherwise.
pub fn standing_outcome(head: i64, here: i64) -> (r: CheckOutcome)
    requires
        head - here <= i64::MAX,
    ensures
        if head > here {
            r == (CheckOutcome::Behind { by: (head - here) as i64 })
        } else {
            r == CheckOutcome::Current
        },
{
    if head > here {
        CheckOutcome::Behind { by: head - here }
    } else {
        CheckOutcome::Current
    }
}

} // verus!
