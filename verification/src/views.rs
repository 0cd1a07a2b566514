//! Navigation state machine: a context record plus a finite set of screens.
//!
//! The machine consumes classifier events through `handle_clockwise`,
//! `handle_counter_clockwise`, `handle_press` and `handle_long_press`,
//! mutates the context in place, and optionally returns an action token: a
//! symbolic request that the host maps to a storage mutation or reload.
//! `get_render_command` projects the context to a declarative description
//! of what should be drawn.
//!
//! Every transition is specified as a function on [`CtxView`], the
//! mathematical value of the context, and each entry point's `ensures`
//! states that the new context is exactly that function of the old one.

use vstd::arithmetic::div_mod::lemma_add_mod_noop;
use vstd::prelude::*;

use crate::models::{CompletionRecord, RecordView, Task, TaskView};

verus! {

/// Possible view states (screens). Exactly one is active at a time.
#[derive(Debug, Clone, Copy, PartialEq, Eq, Structural)]
pub enum ViewState {
    Dashboard,
    TaskList,
    TaskActions,
    DeleteConfirm,
    Completing,
    TaskHistory,
    Settings,
    QrCode,
    VoiceListening,
    VoiceProcessing,
    VoiceResult,
    Empty,
}

/// Dashboard selectable items, in display order.
#[derive(Debug, Clone, Copy, PartialEq, Eq, Structural)]
pub enum DashboardItem {
    Overdue,
    Today,
    Week,
    Total,
    AllTasks,
    Settings,
}

/// Action menu items, in display order.
#[derive(Debug, Clone, Copy, PartialEq, Eq, Structural)]
pub enum ActionItem {
    Done,
    History,
    Delete,
    Back,
}

impl ActionItem {
    pub fn label(&self) -> (r: &'static str)
        ensures
            r@ == match self {
                ActionItem::Done => "Done"@,
                ActionItem::History => "History"@,
                ActionItem::Delete => "Delete"@,
                ActionItem::Back => "Back"@,
            },
    {
        match self {
            Self::Done => "Done",
            Self::History => "History",
            Self::Delete => "Delete",
            Self::Back => "Back",
        }
    }
}

/// Settings menu items, in display order.
#[derive(Debug, Clone, Copy, PartialEq, Eq, Structural)]
pub enum SettingItem {
    ManageTasks,
    ScreenTimeout,
    Back,
}

/// Task counts for the dashboard, supplied by the host after each
/// storage mutation.
#[derive(Debug, Clone, Copy, PartialEq, Eq, Structural)]
pub struct TaskCounts {
    pub overdue: u32,
    pub today: u32,
    pub week: u32,
    pub total: u32,
}

impl Default for TaskCounts {
    fn default() -> (r: Self)
        ensures
            r == (TaskCounts { overdue: 0, today: 0, week: 0, total: 0 }),
    {
        TaskCounts { overdue: 0, today: 0, week: 0, total: 0 }
    }
}

/// The tasks of a context, as mathematical values.
pub open spec fn tasks_view(s: Seq<Task>) -> Seq<TaskView> {
    s.map_values(|t: Task| t@)
}

/// The history of a context, as mathematical values.
pub open spec fn records_view(s: Seq<CompletionRecord>) -> Seq<RecordView> {
    s.map_values(|r: CompletionRecord| r@)
}

/// Mathematical value of a [`ViewContext`].
#[verifier::ext_equal]
pub ghost struct CtxView {
    pub state: ViewState,
    pub dashboard_index: int,
    pub task_counts: TaskCounts,
    pub filtered_urgency: Option<Seq<char>>,
    pub tasks: Seq<TaskView>,
    pub task_index: int,
    pub action_index: int,
    pub delete_confirmed: bool,
    pub completing_progress: int,
    pub history: Seq<RecordView>,
    pub history_index: int,
    pub setting_index: int,
    pub screen_timeout_enabled: bool,
    pub voice_elapsed_ms: int,
    pub voice_message: Seq<char>,
}

/// Current view context data: the single mutable record owned by the
/// state machine. `task_index == -1` is the sentinel for the "Back" card;
/// `completing_progress` is in thousandths, 0 through 1000.
#[derive(Debug)]
pub struct ViewContext {
    pub state: ViewState,
    pub dashboard_index: usize,
    pub task_counts: TaskCounts,
    pub filtered_urgency: Option<String>,
    pub tasks: Vec<Task>,
    pub task_index: i32,
    pub action_index: usize,
    pub delete_confirmed: bool,
    pub completing_progress: u32,
    pub history: Vec<CompletionRecord>,
    pub history_index: usize,
    pub setting_index: usize,
    pub screen_timeout_enabled: bool,
    pub voice_elapsed_ms: u64,
    pub voice_message: String,
}

impl View for ViewContext {
    type V = CtxView;

    open spec fn view(&self) -> CtxView {
        CtxView {
            state: self.state,
            dashboard_index: self.dashboard_index as int,
            task_counts: self.task_counts,
            filtered_urgency: match self.filtered_urgency {
                Some(f) => Some(f@),
                None => None,
            },
            tasks: tasks_view(self.tasks@),
            task_index: self.task_index as int,
            action_index: self.action_index as int,
            delete_confirmed: self.delete_confirmed,
            completing_progress: self.completing_progress as int,
            history: records_view(self.history@),
            history_index: self.history_index as int,
            setting_index: self.setting_index as int,
            screen_timeout_enabled: self.screen_timeout_enabled,
            voice_elapsed_ms: self.voice_elapsed_ms as int,
            voice_message: self.voice_message@,
        }
    }
}

/// The context at boot: dashboard, nothing selected, no data yet.
pub open spec fn initial_ctx() -> CtxView {
    CtxView {
        state: ViewState::Dashboard,
        dashboard_index: 0,
        task_counts: TaskCounts { overdue: 0, today: 0, week: 0, total: 0 },
        filtered_urgency: None,
        tasks: Seq::empty(),
        task_index: 0,
        action_index: 0,
        delete_confirmed: false,
        completing_progress: 0,
        history: Seq::empty(),
        history_index: 0,
        setting_index: 0,
        screen_timeout_enabled: true,
        voice_elapsed_ms: 0,
        voice_message: Seq::empty(),
    }
}

/// Well-formedness of a context: every selection index is in range for
/// the menu it selects from, and the task cursor is the sentinel or a
/// valid index whenever there are tasks.
pub open spec fn ctx_inv(c: CtxView) -> bool {
    &&& 0 <= c.dashboard_index < 6
    &&& 0 <= c.action_index < 4
    &&& 0 <= c.setting_index < 3
    &&& c.task_index >= -1
    &&& (c.tasks.len() > 0 ==> c.task_index < c.tasks.len())
    &&& c.tasks.len() <= 0x7fff_ffff
    &&& c.history_index >= 0
    &&& (c.history_index == 0 || c.history_index < c.history.len())
}

/// One clockwise step of the task-list cursor: the walk cycles through
/// the `-1` sentinel.
pub open spec fn cursor_cw(i: int, len: int) -> int {
    if i == -1 {
        0
    } else if i == len - 1 {
        -1
    } else {
        i + 1
    }
}

/// One counter-clockwise step of the task-list cursor.
pub open spec fn cursor_ccw(i: int, len: int) -> int {
    if i == -1 {
        len - 1
    } else if i == 0 {
        -1
    } else {
        i - 1
    }
}

/// Effect of one clockwise rotation on the context.
pub open spec fn spec_rotate_cw(c: CtxView) -> CtxView {
    match c.state {
        ViewState::Dashboard => CtxView { dashboard_index: (c.dashboard_index + 1) % 6, ..c },
        ViewState::TaskList => if c.tasks.len() == 0 {
            c
        } else {
            CtxView { task_index: cursor_cw(c.task_index, c.tasks.len() as int), ..c }
        },
        ViewState::TaskActions => CtxView { action_index: (c.action_index + 1) % 4, ..c },
        ViewState::DeleteConfirm => CtxView { delete_confirmed: !c.delete_confirmed, ..c },
        ViewState::TaskHistory => if c.history.len() == 0 {
            c
        } else {
            CtxView {
                history_index: if c.history_index + 1 < c.history.len() {
                    c.history_index + 1
                } else {
                    c.history.len() - 1
                },
                ..c
            }
        },
        ViewState::Settings => CtxView {
            setting_index: if c.setting_index + 1 < 2 {
                c.setting_index + 1
            } else {
                2
            },
            ..c
        },
        _ => c,
    }
}

/// Effect of one counter-clockwise rotation on the context.
pub open spec fn spec_rotate_ccw(c: CtxView) -> CtxView {
    match c.state {
        ViewState::Dashboard => CtxView { dashboard_index: (c.dashboard_index + 5) % 6, ..c },
        ViewState::TaskList => if c.tasks.len() == 0 {
            c
        } else {
            CtxView { task_index: cursor_ccw(c.task_index, c.tasks.len() as int), ..c }
        },
        ViewState::TaskActions => CtxView { action_index: (c.action_index + 3) % 4, ..c },
        ViewState::DeleteConfirm => CtxView { delete_confirmed: !c.delete_confirmed, ..c },
        ViewState::TaskHistory => CtxView {
            history_index: if c.history_index == 0 {
                0
            } else {
                c.history_index - 1
            },
            ..c
        },
        ViewState::Settings => CtxView {
            setting_index: if c.setting_index == 0 {
                0
            } else {
                c.setting_index - 1
            },
            ..c
        },
        _ => c,
    }
}

/// The urgency filter that a dashboard count item selects. The Total
/// item is not here: it selects no filter.
pub open spec fn dashboard_filter(i: int) -> Seq<char> {
    if i == 0 {
        "overdue"@
    } else if i == 1 {
        "today"@
    } else {
        "week"@
    }
}

/// Effect of a short press on the context, with the action token it
/// returns.
pub open spec fn spec_press(c: CtxView) -> (CtxView, Option<Seq<char>>) {
    match c.state {
        ViewState::Dashboard => if c.dashboard_index == 4 {
            (
                CtxView {
                    filtered_urgency: None,
                    task_index: 0,
                    state: ViewState::TaskList,
                    ..c
                },
                Some("show_all_tasks"@),
            )
        } else if c.dashboard_index == 5 {
            (CtxView { setting_index: 0, state: ViewState::Settings, ..c }, Some("show_settings"@))
        } else if c.dashboard_index == 3 {
            // the Total count selects the unfiltered list
            (
                CtxView {
                    filtered_urgency: None,
                    task_index: 0,
                    state: ViewState::TaskList,
                    ..c
                },
                Some("filter_tasks"@),
            )
        } else if 0 <= c.dashboard_index < 3 {
            (
                CtxView {
                    filtered_urgency: Some(dashboard_filter(c.dashboard_index)),
                    task_index: 0,
                    state: ViewState::TaskList,
                    ..c
                },
                Some("filter_tasks"@),
            )
        } else {
            (c, None)
        },
        ViewState::TaskList => if c.task_index == -1 {
            (
                CtxView {
                    filtered_urgency: None,
                    task_index: 0,
                    state: ViewState::Dashboard,
                    ..c
                },
                Some("go_dashboard"@),
            )
        } else if c.tasks.len() > 0 {
            (CtxView { action_index: 0, state: ViewState::TaskActions, ..c }, None)
        } else {
            (c, None)
        },
        ViewState::TaskActions => if c.action_index == 0 {
            (
                CtxView { completing_progress: 0, state: ViewState::Completing, ..c },
                Some("complete"@),
            )
        } else if c.action_index == 1 {
            (
                CtxView { history_index: 0, state: ViewState::TaskHistory, ..c },
                Some("load_history"@),
            )
        } else if c.action_index == 2 {
            (CtxView { delete_confirmed: false, state: ViewState::DeleteConfirm, ..c }, None)
        } else {
            (CtxView { state: ViewState::TaskList, ..c }, None)
        },
        ViewState::DeleteConfirm => if c.delete_confirmed {
            (CtxView { state: ViewState::TaskList, ..c }, Some("delete"@))
        } else {
            (CtxView { state: ViewState::TaskActions, ..c }, None)
        },
        ViewState::TaskHistory => (CtxView { state: ViewState::TaskActions, ..c }, None),
        ViewState::Settings => if c.setting_index == 0 {
            (CtxView { state: ViewState::QrCode, ..c }, Some("show_qr"@))
        } else if c.setting_index == 1 {
            (
                CtxView { screen_timeout_enabled: !c.screen_timeout_enabled, ..c },
                Some("toggle_timeout"@),
            )
        } else {
            (CtxView { state: ViewState::Dashboard, ..c }, None)
        },
        _ => (c, None),
    }
}

/// Effect of a long press (back/escape) on the context, with the action
/// token it returns. The voice screens exit to the dashboard; the task
/// list and the history keep their cursors.
pub open spec fn spec_long_press(c: CtxView) -> (CtxView, Option<Seq<char>>) {
    match c.state {
        ViewState::Dashboard => (c, None),
        ViewState::TaskList => (
            CtxView { filtered_urgency: None, state: ViewState::Dashboard, ..c },
            Some("go_dashboard"@),
        ),
        ViewState::QrCode => (CtxView { state: ViewState::Settings, ..c }, None),
        ViewState::Settings => (
            CtxView { state: ViewState::Dashboard, ..c },
            Some("go_dashboard"@),
        ),
        ViewState::TaskActions => (CtxView { state: ViewState::TaskList, ..c }, None),
        ViewState::DeleteConfirm => (CtxView { state: ViewState::TaskList, ..c }, None),
        ViewState::TaskHistory => (CtxView { state: ViewState::TaskList, ..c }, None),
        ViewState::Completing => (c, None),
        ViewState::Empty => (c, None),
        ViewState::VoiceListening => (CtxView { state: ViewState::Dashboard, ..c }, None),
        ViewState::VoiceProcessing => (CtxView { state: ViewState::Dashboard, ..c }, None),
        ViewState::VoiceResult => (CtxView { state: ViewState::Dashboard, ..c }, None),
    }
}

/// View of an `Option<&str>` action token.
pub open spec fn token_view(r: Option<&str>) -> Option<Seq<char>> {
    match r {
        Some(s) => Some(s@),
        None => None,
    }
}

/// Mathematical value of a [`RenderCommand`].
#[verifier::ext_equal]
pub ghost enum CmdView {
    Dashboard { counts: TaskCounts, selected: int },
    TaskCard { task_index: int, total: int, filtered: Option<Seq<char>> },
    BackCard { total: int },
    EmptyFiltered { filter_name: Seq<char> },
    Empty,
    ActionMenu { task_name: Seq<char>, selected: int, options: Seq<Seq<char>> },
    ConfirmDialog { task_name: Seq<char>, confirm_selected: bool },
    Completing { task_name: Seq<char>, progress: int },
    History { task_name: Seq<char>, selected: int },
    Settings { selected: int, screen_timeout_enabled: bool },
    QrCode,
    VoiceListening { elapsed_ms: int },
    VoiceProcessing,
    VoiceResult { message: Seq<char> },
}

/// Render command: a data-only description of what the renderer should
/// draw for the current screen. `progress` is in thousandths.
#[derive(Debug)]
pub enum RenderCommand {
    Dashboard { counts: TaskCounts, selected: usize },
    TaskCard { task_index: usize, total: usize, filtered: Option<String> },
    BackCard { total: usize },
    EmptyFiltered { filter_name: String },
    Empty,
    ActionMenu { task_name: String, selected: usize, options: Vec<String> },
    ConfirmDialog { task_name: String, confirm_selected: bool },
    Completing { task_name: String, progress: u32 },
    History { task_name: String, selected: usize },
    Settings { selected: usize, screen_timeout_enabled: bool },
    QrCode,
    VoiceListening { elapsed_ms: u64 },
    VoiceProcessing,
    VoiceResult { message: String },
}

impl View for RenderCommand {
    type V = CmdView;

    open spec fn view(&self) -> CmdView {
        match self {
            RenderCommand::Dashboard { counts, selected } => CmdView::Dashboard {
                counts: *counts,
                selected: *selected as int,
            },
            RenderCommand::TaskCard { task_index, total, filtered } => CmdView::TaskCard {
                task_index: *task_index as int,
                total: *total as int,
                filtered: match filtered {
                    Some(f) => Some(f@),
                    None => None,
                },
            },
            RenderCommand::BackCard { total } => CmdView::BackCard { total: *total as int },
            RenderCommand::EmptyFiltered { filter_name } => CmdView::EmptyFiltered {
                filter_name: filter_name@,
            },
            RenderCommand::Empty => CmdView::Empty,
            RenderCommand::ActionMenu { task_name, selected, options } => CmdView::ActionMenu {
                task_name: task_name@,
                selected: *selected as int,
                options: options@.map_values(|o: String| o@),
            },
            RenderCommand::ConfirmDialog { task_name, confirm_selected } => CmdView::ConfirmDialog {
                task_name: task_name@,
                confirm_selected: *confirm_selected,
            },
            RenderCommand::Completing { task_name, progress } => CmdView::Completing {
                task_name: task_name@,
                progress: *progress as int,
            },
            RenderCommand::History { task_name, selected } => CmdView::History {
                task_name: task_name@,
                selected: *selected as int,
            },
            RenderCommand::Settings { selected, screen_timeout_enabled } => CmdView::Settings {
                selected: *selected as int,
                screen_timeout_enabled: *screen_timeout_enabled,
            },
            RenderCommand::QrCode => CmdView::QrCode,
            RenderCommand::VoiceListening { elapsed_ms } => CmdView::VoiceListening {
                elapsed_ms: *elapsed_ms as int,
            },
            RenderCommand::VoiceProcessing => CmdView::VoiceProcessing,
            RenderCommand::VoiceResult { message } => CmdView::VoiceResult { message: message@ },
        }
    }
}

/// Name of the task under the cursor, or the empty string when the cursor
/// is on the sentinel or out of range.
pub open spec fn current_name(c: CtxView) -> Seq<char> {
    if 0 <= c.task_index < c.tasks.len() {
        c.tasks[c.task_index].name
    } else {
        Seq::empty()
    }
}

/// The fixed labels of the action menu.
pub open spec fn action_labels() -> Seq<Seq<char>> {
    seq!["Done"@, "History"@, "Delete"@, "Back"@]
}

/// What should be drawn for a context. The task list alone fans out to
/// four commands: the sentinel cursor projects the back card, a valid
/// cursor the task card, and an empty list projects `EmptyFiltered` under
/// a filter and `Empty` without one.
pub open spec fn spec_project(c: CtxView) -> CmdView {
    match c.state {
        ViewState::Dashboard => CmdView::Dashboard {
            counts: c.task_counts,
            selected: c.dashboard_index,
        },
        ViewState::TaskList => if c.task_index == -1 {
            CmdView::BackCard { total: c.tasks.len() as int }
        } else if 0 <= c.task_index < c.tasks.len() {
            CmdView::TaskCard {
                task_index: c.task_index,
                total: c.tasks.len() as int,
                filtered: c.filtered_urgency,
            }
        } else {
            match c.filtered_urgency {
                Some(f) => CmdView::EmptyFiltered { filter_name: f },
                None => CmdView::Empty,
            }
        },
        ViewState::TaskActions => CmdView::ActionMenu {
            task_name: current_name(c),
            selected: c.action_index,
            options: action_labels(),
        },
        ViewState::DeleteConfirm => CmdView::ConfirmDialog {
            task_name: current_name(c),
            confirm_selected: c.delete_confirmed,
        },
        ViewState::Completing => CmdView::Completing {
            task_name: current_name(c),
            progress: c.completing_progress,
        },
        ViewState::TaskHistory => CmdView::History {
            task_name: current_name(c),
            selected: c.history_index,
        },
        ViewState::Settings => CmdView::Settings {
            selected: c.setting_index,
            screen_timeout_enabled: c.screen_timeout_enabled,
        },
        ViewState::QrCode => CmdView::QrCode,
        ViewState::VoiceListening => CmdView::VoiceListening { elapsed_ms: c.voice_elapsed_ms },
        ViewState::VoiceProcessing => CmdView::VoiceProcessing,
        ViewState::VoiceResult => CmdView::VoiceResult { message: c.voice_message },
        ViewState::Empty => CmdView::Empty,
    }
}

impl ViewContext {
    pub fn new() -> (r: Self)
        ensures
            r@ == initial_ctx(),
            ctx_inv(r@),
    {
        let r = ViewContext {
            state: ViewState::Dashboard,
            dashboard_index: 0,
            task_counts: TaskCounts::default(),
            filtered_urgency: None,
            tasks: Vec::new(),
            task_index: 0,
            action_index: 0,
            delete_confirmed: false,
            completing_progress: 0,
            history: Vec::new(),
            history_index: 0,
            setting_index: 0,
            screen_timeout_enabled: true,
            voice_elapsed_ms: 0,
            voice_message: String::new(),
        };
        proof {
            assert(r@ =~= initial_ctx());
        }
        r
    }

    /// Get the currently selected task, if the cursor is on one.
    pub fn current_task(&self) -> (r: Option<&Task>)
        ensures
            r is Some <==> 0 <= self@.task_index < self@.tasks.len(),
            r matches Some(t) ==> t@ == self@.tasks[self@.task_index],
    {
        if self.task_index >= 0 && (self.task_index as usize) < self.tasks.len() {
            Some(&self.tasks[self.task_index as usize])
        } else {
            None
        }
    }

    /// Get the currently selected dashboard item, if the selection is in
    /// range.
    pub fn current_dashboard_item(&self) -> (r: Option<DashboardItem>)
        ensures
            r == if self@.dashboard_index == 0 {
                Some(DashboardItem::Overdue)
            } else if self@.dashboard_index == 1 {
                Some(DashboardItem::Today)
            } else if self@.dashboard_index == 2 {
                Some(DashboardItem::Week)
            } else if self@.dashboard_index == 3 {
                Some(DashboardItem::Total)
            } else if self@.dashboard_index == 4 {
                Some(DashboardItem::AllTasks)
            } else if self@.dashboard_index == 5 {
                Some(DashboardItem::Settings)
            } else {
                None
            },
    {
        match self.dashboard_index {
            0 => Some(DashboardItem::Overdue),
            1 => Some(DashboardItem::Today),
            2 => Some(DashboardItem::Week),
            3 => Some(DashboardItem::Total),
            4 => Some(DashboardItem::AllTasks),
            5 => Some(DashboardItem::Settings),
            _ => None,
        }
    }
}

/// Handles navigation between views based on encoder input.
#[derive(Debug)]
pub struct ViewNavigator {
    pub ctx: ViewContext,
}

impl ViewNavigator {
    /// Well-formedness of the owned context.
    pub open spec fn inv(&self) -> bool {
        ctx_inv(self.ctx@)
    }

    pub fn new() -> (r: Self)
        ensures
            r.ctx@ == initial_ctx(),
            r.inv(),
    {
        ViewNavigator { ctx: ViewContext::new() }
    }

    /// Replace the task list, clamping the cursor to the new end when it
    /// fell out of range; the cursor never becomes the sentinel here.
    pub fn set_tasks(&mut self, tasks: Vec<Task>)
        requires
            tasks@.len() <= 0x7fff_ffff,
        ensures
            final(self).ctx@ == (CtxView {
                tasks: tasks_view(tasks@),
                task_index: if tasks@.len() > 0 && old(self).ctx@.task_index >= tasks@.len() {
                    tasks@.len() - 1
                } else {
                    old(self).ctx@.task_index
                },
                ..old(self).ctx@
            }),
            old(self).inv() ==> final(self).inv(),
    {
        let len = tasks.len();
        self.ctx.tasks = tasks;
        if len > 0 && self.ctx.task_index >= len as i32 {
            self.ctx.task_index = len as i32 - 1;
        }
    }

    /// Replace the dashboard task counts.
    pub fn set_task_counts(&mut self, counts: TaskCounts)
        ensures
            final(self).ctx@ == (CtxView { task_counts: counts, ..old(self).ctx@ }),
            old(self).inv() ==> final(self).inv(),
    {
        self.ctx.task_counts = counts;
    }

    /// Replace the completion history for the current task, resetting its
    /// cursor.
    pub fn set_history(&mut self, history: Vec<CompletionRecord>)
        ensures
            final(self).ctx@ == (CtxView {
                history: records_view(history@),
                history_index: 0,
                ..old(self).ctx@
            }),
            old(self).inv() ==> final(self).inv(),
    {
        self.ctx.history = history;
        self.ctx.history_index = 0;
    }

    /// Handle clockwise encoder rotation (scroll down).
    pub fn handle_clockwise(&mut self)
        requires
            old(self).inv(),
        ensures
            final(self).ctx@ == spec_rotate_cw(old(self).ctx@),
            final(self).inv(),
    {
        match self.ctx.state {
            ViewState::Dashboard => {
                self.ctx.dashboard_index = (self.ctx.dashboard_index + 1) % 6;
            },
            ViewState::TaskList => {
                if self.ctx.tasks.len() > 0 {
                    let len = self.ctx.tasks.len() as i32;
                    if self.ctx.task_index == -1 {
                        self.ctx.task_index = 0;
                    } else if self.ctx.task_index == len - 1 {
                        self.ctx.task_index = -1;
                    } else {
                        self.ctx.task_index = self.ctx.task_index + 1;
                    }
                }
            },
            ViewState::TaskActions => {
                self.ctx.action_index = (self.ctx.action_index + 1) % 4;
            },
            ViewState::DeleteConfirm => {
                self.ctx.delete_confirmed = !self.ctx.delete_confirmed;
            },
            ViewState::TaskHistory => {
                if self.ctx.history.len() > 0 {
                    if self.ctx.history_index + 1 < self.ctx.history.len() {
                        self.ctx.history_index = self.ctx.history_index + 1;
                    } else {
                        self.ctx.history_index = self.ctx.history.len() - 1;
                    }
                }
            },
            ViewState::Settings => {
                if self.ctx.setting_index + 1 < 2 {
                    self.ctx.setting_index = self.ctx.setting_index + 1;
                } else {
                    self.ctx.setting_index = 2;
                }
            },
            _ => {},
        }
    }

    /// Handle counter-clockwise encoder rotation (scroll up).
    pub fn handle_counter_clockwise(&mut self)
        requires
            old(self).inv(),
        ensures
            final(self).ctx@ == spec_rotate_ccw(old(self).ctx@),
            final(self).inv(),
    {
        match self.ctx.state {
            ViewState::Dashboard => {
                if self.ctx.dashboard_index == 0 {
                    self.ctx.dashboard_index = 5;
                } else {
                    self.ctx.dashboard_index = self.ctx.dashboard_index - 1;
                }
            },
            ViewState::TaskList => {
                if self.ctx.tasks.len() > 0 {
                    let len = self.ctx.tasks.len() as i32;
                    if self.ctx.task_index == -1 {
                        self.ctx.task_index = len - 1;
                    } else if self.ctx.task_index == 0 {
                        self.ctx.task_index = -1;
                    } else {
                        self.ctx.task_index = self.ctx.task_index - 1;
                    }
                }
            },
            ViewState::TaskActions => {
                if self.ctx.action_index == 0 {
                    self.ctx.action_index = 3;
                } else {
                    self.ctx.action_index = self.ctx.action_index - 1;
                }
            },
            ViewState::DeleteConfirm => {
                self.ctx.delete_confirmed = !self.ctx.delete_confirmed;
            },
            ViewState::TaskHistory => {
                if self.ctx.history_index > 0 {
                    self.ctx.history_index = self.ctx.history_index - 1;
                }
            },
            ViewState::Settings => {
                if self.ctx.setting_index > 0 {
                    self.ctx.setting_index = self.ctx.setting_index - 1;
                }
            },
            _ => {},
        }
    }

    /// Handle a short press (select). Returns an action token when the
    /// host has storage work to do.
    pub fn handle_press(&mut self) -> (r: Option<&'static str>)
        requires
            old(self).inv(),
        ensures
            final(self).ctx@ == spec_press(old(self).ctx@).0,
            token_view(r) == spec_press(old(self).ctx@).1,
            final(self).inv(),
    {
        match self.ctx.state {
            ViewState::Dashboard => {
                if self.ctx.dashboard_index == 4 {
                    self.ctx.filtered_urgency = None;
                    self.ctx.task_index = 0;
                    self.ctx.state = ViewState::TaskList;
                    Some("show_all_tasks")
                } else if self.ctx.dashboard_index == 5 {
                    self.ctx.setting_index = 0;
                    self.ctx.state = ViewState::Settings;
                    Some("show_settings")
                } else if self.ctx.dashboard_index == 3 {
                    self.ctx.filtered_urgency = None;
                    self.ctx.task_index = 0;
                    self.ctx.state = ViewState::TaskList;
                    Some("filter_tasks")
                } else {
                    let filter = if self.ctx.dashboard_index == 0 {
                        "overdue"
                    } else if self.ctx.dashboard_index == 1 {
                        "today"
                    } else {
                        "week"
                    };
                    self.ctx.filtered_urgency = Some(String::from_str(filter));
                    self.ctx.task_index = 0;
                    self.ctx.state = ViewState::TaskList;
                    Some("filter_tasks")
                }
            },
            ViewState::TaskList => {
                if self.ctx.task_index == -1 {
                    self.ctx.filtered_urgency = None;
                    self.ctx.task_index = 0;
                    self.ctx.state = ViewState::Dashboard;
                    Some("go_dashboard")
                } else if self.ctx.tasks.len() > 0 {
                    self.ctx.action_index = 0;
                    self.ctx.state = ViewState::TaskActions;
                    None
                } else {
                    None
                }
            },
            ViewState::TaskActions => {
                if self.ctx.action_index == 0 {
                    self.ctx.completing_progress = 0;
                    self.ctx.state = ViewState::Completing;
                    Some("complete")
                } else if self.ctx.action_index == 1 {
                    self.ctx.history_index = 0;
                    self.ctx.state = ViewState::TaskHistory;
                    Some("load_history")
                } else if self.ctx.action_index == 2 {
                    self.ctx.delete_confirmed = false;
                    self.ctx.state = ViewState::DeleteConfirm;
                    None
                } else {
                    self.ctx.state = ViewState::TaskList;
                    None
                }
            },
            ViewState::DeleteConfirm => {
                if self.ctx.delete_confirmed {
                    self.ctx.state = ViewState::TaskList;
                    Some("delete")
                } else {
                    self.ctx.state = ViewState::TaskActions;
                    None
                }
            },
            ViewState::TaskHistory => {
                self.ctx.state = ViewState::TaskActions;
                None
            },
            ViewState::Settings => {
                if self.ctx.setting_index == 0 {
                    self.ctx.state = ViewState::QrCode;
                    Some("show_qr")
                } else if self.ctx.setting_index == 1 {
                    self.ctx.screen_timeout_enabled = !self.ctx.screen_timeout_enabled;
                    Some("toggle_timeout")
                } else {
                    self.ctx.state = ViewState::Dashboard;
                    None
                }
            },
            _ => None,
        }
    }

    /// Handle a long press (back/escape).
    pub fn handle_long_press(&mut self) -> (r: Option<&'static str>)
        requires
            old(self).inv(),
        ensures
            final(self).ctx@ == spec_long_press(old(self).ctx@).0,
            token_view(r) == spec_long_press(old(self).ctx@).1,
            final(self).inv(),
    {
        match self.ctx.state {
            ViewState::Dashboard => None,
            ViewState::TaskList => {
                self.ctx.filtered_urgency = None;
                self.ctx.state = ViewState::Dashboard;
                Some("go_dashboard")
            },
            ViewState::QrCode => {
                self.ctx.state = ViewState::Settings;
                None
            },
            ViewState::Settings => {
                self.ctx.state = ViewState::Dashboard;
                Some("go_dashboard")
            },
            ViewState::TaskActions => {
                self.ctx.state = ViewState::TaskList;
                None
            },
            ViewState::DeleteConfirm => {
                self.ctx.state = ViewState::TaskList;
                None
            },
            ViewState::TaskHistory => {
                self.ctx.state = ViewState::TaskList;
                None
            },
            ViewState::Completing => None,
            ViewState::Empty => None,
            ViewState::VoiceListening => {
                self.ctx.state = ViewState::Dashboard;
                None
            },
            ViewState::VoiceProcessing => {
                self.ctx.state = ViewState::Dashboard;
                None
            },
            ViewState::VoiceResult => {
                self.ctx.state = ViewState::Dashboard;
                None
            },
        }
    }

    /// The button was held past the voice threshold: enter the listening
    /// screen. The task list and its cursor are untouched.
    pub fn handle_voice_start(&mut self)
        ensures
            final(self).ctx@ == (CtxView {
                state: ViewState::VoiceListening,
                voice_elapsed_ms: 0,
                ..old(self).ctx@
            }),
            old(self).inv() ==> final(self).inv(),
    {
        self.ctx.state = ViewState::VoiceListening;
        self.ctx.voice_elapsed_ms = 0;
    }

    /// The button was released after a voice hold: move from listening to
    /// processing while the host transcribes. A stray stop is ignored.
    pub fn handle_voice_stop(&mut self)
        ensures
            final(self).ctx@ == if old(self).ctx@.state == ViewState::VoiceListening {
                CtxView { state: ViewState::VoiceProcessing, ..old(self).ctx@ }
            } else {
                old(self).ctx@
            },
            old(self).inv() ==> final(self).inv(),
    {
        if self.ctx.state == ViewState::VoiceListening {
            self.ctx.state = ViewState::VoiceProcessing;
        }
    }

    /// The host finished processing a voice command: show its message.
    pub fn set_voice_result(&mut self, message: String)
        ensures
            final(self).ctx@ == (CtxView {
                state: ViewState::VoiceResult,
                voice_message: message@,
                ..old(self).ctx@
            }),
            old(self).inv() ==> final(self).inv(),
    {
        self.ctx.voice_message = message;
        self.ctx.state = ViewState::VoiceResult;
    }

    /// The host dismissed the voice result (for example after a timeout):
    /// back to the dashboard. In any other state this does nothing.
    pub fn dismiss_voice_result(&mut self)
        ensures
            final(self).ctx@ == if old(self).ctx@.state == ViewState::VoiceResult {
                CtxView { state: ViewState::Dashboard, ..old(self).ctx@ }
            } else {
                old(self).ctx@
            },
            old(self).inv() ==> final(self).inv(),
    {
        if self.ctx.state == ViewState::VoiceResult {
            self.ctx.state = ViewState::Dashboard;
        }
    }

    /// Called when the completion animation finishes.
    pub fn complete_animation_done(&mut self)
        ensures
            final(self).ctx@ == (CtxView { state: ViewState::TaskList, ..old(self).ctx@ }),
            old(self).inv() ==> final(self).inv(),
    {
        self.ctx.state = ViewState::TaskList;
    }

    /// Get the render command for the current view.
    pub fn get_render_command(&self) -> (r: RenderCommand)
        requires
            self.inv(),
        ensures
            r@ == spec_project(self.ctx@),
    {
        match self.ctx.state {
            ViewState::Dashboard => RenderCommand::Dashboard {
                counts: self.ctx.task_counts,
                selected: self.ctx.dashboard_index,
            },
            ViewState::TaskList => {
                if self.ctx.task_index == -1 {
                    RenderCommand::BackCard { total: self.ctx.tasks.len() }
                } else if self.ctx.task_index >= 0 && (self.ctx.task_index as usize)
                    < self.ctx.tasks.len() {
                    RenderCommand::TaskCard {
                        task_index: self.ctx.task_index as usize,
                        total: self.ctx.tasks.len(),
                        filtered: match &self.ctx.filtered_urgency {
                            Some(f) => Some(f.clone()),
                            None => None,
                        },
                    }
                } else {
                    match &self.ctx.filtered_urgency {
                        Some(f) => RenderCommand::EmptyFiltered { filter_name: f.clone() },
                        None => RenderCommand::Empty,
                    }
                }
            },
            ViewState::TaskActions => {
                let mut options: Vec<String> = Vec::new();
                options.push(String::from_str("Done"));
                options.push(String::from_str("History"));
                options.push(String::from_str("Delete"));
                options.push(String::from_str("Back"));
                proof {
                    assert(options@.map_values(|o: String| o@) =~= action_labels());
                }
                RenderCommand::ActionMenu {
                    task_name: self.current_task_name(),
                    selected: self.ctx.action_index,
                    options,
                }
            },
            ViewState::DeleteConfirm => RenderCommand::ConfirmDialog {
                task_name: self.current_task_name(),
                confirm_selected: self.ctx.delete_confirmed,
            },
            ViewState::Completing => RenderCommand::Completing {
                task_name: self.current_task_name(),
                progress: self.ctx.completing_progress,
            },
            ViewState::TaskHistory => RenderCommand::History {
                task_name: self.current_task_name(),
                selected: self.ctx.history_index,
            },
            ViewState::Settings => RenderCommand::Settings {
                selected: self.ctx.setting_index,
                screen_timeout_enabled: self.ctx.screen_timeout_enabled,
            },
            ViewState::QrCode => RenderCommand::QrCode,
            ViewState::VoiceListening => RenderCommand::VoiceListening {
                elapsed_ms: self.ctx.voice_elapsed_ms,
            },
            ViewState::VoiceProcessing => RenderCommand::VoiceProcessing,
            ViewState::VoiceResult => RenderCommand::VoiceResult {
                message: self.ctx.voice_message.clone(),
            },
            ViewState::Empty => RenderCommand::Empty,
        }
    }

    /// Name of the task under the cursor, or the empty string.
    fn current_task_name(&self) -> (r: String)
        ensures
            r@ == current_name(self.ctx@),
    {
        match self.ctx.current_task() {
            Some(t) => t.name.clone(),
            None => String::new(),
        }
    }
}

/// Number of clockwise steps in a sequence of rotation directions
/// (`true` is clockwise).
pub open spec fn count_cw(dirs: Seq<bool>) -> int
    decreases dirs.len(),
{
    if dirs.len() == 0 {
        0
    } else {
        (if dirs[0] {
            1int
        } else {
            0int
        }) + count_cw(dirs.drop_first())
    }
}

pub proof fn lemma_count_cw_bounds(dirs: Seq<bool>)
    ensures
        0 <= count_cw(dirs) <= dirs.len(),
    decreases dirs.len(),
{
    if dirs.len() > 0 {
        lemma_count_cw_bounds(dirs.drop_first());
    }
}

/// The context after a sequence of rotations (`true` is clockwise).
pub open spec fn apply_rotations(c: CtxView, dirs: Seq<bool>) -> CtxView
    decreases dirs.len(),
{
    if dirs.len() == 0 {
        c
    } else {
        apply_rotations(
            if dirs[0] {
                spec_rotate_cw(c)
            } else {
                spec_rotate_ccw(c)
            },
            dirs.drop_first(),
        )
    }
}

/// Law: on the dashboard, a mix of rotations lands on
/// `(start + cw - ccw) mod 6`, written with `-1 ≡ 5`: only the counts of
/// each direction matter, not their order, and six alike return to the
/// start. Nothing else in the context changes.
pub proof fn lemma_dashboard_rotations(c: CtxView, dirs: Seq<bool>)
    requires
        c.state == ViewState::Dashboard,
        0 <= c.dashboard_index < 6,
    ensures
        apply_rotations(c, dirs) == (CtxView {
            dashboard_index: (c.dashboard_index + count_cw(dirs) + 5 * (dirs.len() - count_cw(
                dirs,
            ))) % 6,
            ..c
        }),
    decreases dirs.len(),
{
    lemma_count_cw_bounds(dirs);
    if dirs.len() == 0 {
        assert(c =~= (CtxView { dashboard_index: c.dashboard_index % 6, ..c }));
    } else {
        let step = if dirs[0] {
            1int
        } else {
            5int
        };
        let c1 = CtxView { dashboard_index: (c.dashboard_index + step) % 6, ..c };
        assert(apply_rotations(c, dirs) == apply_rotations(c1, dirs.drop_first()));
        lemma_dashboard_rotations(c1, dirs.drop_first());
        let rest = dirs.drop_first();
        let t = count_cw(rest) + 5 * (rest.len() - count_cw(rest));
        lemma_count_cw_bounds(rest);
        lemma_add_mod_noop(c.dashboard_index + step, t, 6);
        assert((c.dashboard_index + step) % 6 % 6 == (c.dashboard_index + step) % 6);
        lemma_add_mod_noop((c.dashboard_index + step) % 6, t % 6, 6);
        assert(((c.dashboard_index + step) % 6 + t) % 6 == (c.dashboard_index + step + t) % 6);
        assert(step + t == count_cw(dirs) + 5 * (dirs.len() - count_cw(dirs)));
    }
}

/// Law, special case: `n` clockwise rotations from a fresh dashboard put
/// the selection on `n mod 6`.
pub proof fn lemma_dashboard_n_clockwise(n: nat)
    ensures
        apply_rotations(initial_ctx(), Seq::new(n, |i: int| true)).dashboard_index == n % 6,
{
    let dirs = Seq::new(n, |i: int| true);
    lemma_count_all_cw(dirs);
    lemma_dashboard_rotations(initial_ctx(), dirs);
}

proof fn lemma_count_all_cw(dirs: Seq<bool>)
    requires
        forall|i: int| 0 <= i < dirs.len() ==> dirs[i],
    ensures
        count_cw(dirs) == dirs.len(),
    decreases dirs.len(),
{
    if dirs.len() > 0 {
        lemma_count_all_cw(dirs.drop_first());
    }
}

/// The context after `n` clockwise rotations.
pub open spec fn apply_cw_n(c: CtxView, n: nat) -> CtxView
    decreases n,
{
    if n == 0 {
        c
    } else {
        apply_cw_n(spec_rotate_cw(c), (n - 1) as nat)
    }
}

proof fn lemma_tasklist_walk(c: CtxView, n: nat)
    requires
        c.state == ViewState::TaskList,
        c.tasks.len() >= 1,
        -1 <= c.task_index < c.tasks.len(),
    ensures
        apply_cw_n(c, n) == (CtxView {
            task_index: ((c.task_index + 1 + n) % (c.tasks.len() + 1) as int) - 1,
            ..c
        }),
    decreases n,
{
    let len = c.tasks.len() as int;
    let m = len + 1;
    if n == 0 {
        vstd::arithmetic::div_mod::lemma_small_mod((c.task_index + 1) as nat, m as nat);
        assert(c =~= (CtxView { task_index: ((c.task_index + 1) % m) - 1, ..c }));
    } else {
        let i1 = cursor_cw(c.task_index, len);
        let c1 = CtxView { task_index: i1, ..c };
        assert(spec_rotate_cw(c) == c1);
        // one clockwise step advances the cursor's position in the cycle by one
        if c.task_index == len - 1 {
            assert(i1 + 1 == 0);
            assert((c.task_index + 2) % m == 0) by {
                vstd::arithmetic::div_mod::lemma_mod_self_0(m);
            }
        } else {
            vstd::arithmetic::div_mod::lemma_small_mod((c.task_index + 2) as nat, m as nat);
        }
        assert(i1 + 1 == (c.task_index + 2) % m);
        lemma_tasklist_walk(c1, (n - 1) as nat);
        let t = (n - 1) as int;
        lemma_add_mod_noop(c.task_index + 2, t, m);
        vstd::arithmetic::div_mod::lemma_add_mod_noop_right((c.task_index + 2) % m, t, m);
        assert(((c.task_index + 2) % m + t) % m == (c.task_index + 2 + t) % m);
        assert(apply_cw_n(c, n) == apply_cw_n(c1, (n - 1) as nat));
    }
}

/// Law: the task-list cursor walk is a cycle of length `len + 1` through
/// the back sentinel: with `len` tasks, `len + 1` clockwise steps return
/// the whole context to where it began.
pub proof fn lemma_tasklist_cycle(c: CtxView)
    requires
        c.state == ViewState::TaskList,
        c.tasks.len() >= 1,
        -1 <= c.task_index < c.tasks.len(),
    ensures
        apply_cw_n(c, (c.tasks.len() + 1) as nat) == c,
{
    let len = c.tasks.len() as int;
    let m = len + 1;
    lemma_tasklist_walk(c, (len + 1) as nat);
    lemma_add_mod_noop(c.task_index + 1, m, m);
    vstd::arithmetic::div_mod::lemma_mod_self_0(m);
    vstd::arithmetic::div_mod::lemma_small_mod((c.task_index + 1) as nat, m as nat);
    assert((c.task_index + 1 + m) % m == c.task_index + 1);
    assert(apply_cw_n(c, (len + 1) as nat) =~= c);
}

} // verus!
