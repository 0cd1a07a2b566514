//! Tests for the navigation state machine and the render projector.

use kiosk_core::models::{CompletionRecord, Task, RecurrenceType};
use kiosk_core::views::{RenderCommand, TaskCounts, ViewNavigator, ViewState};

fn task(id: u32, name: &str, due: &str) -> Task {
    Task {
        id,
        name: String::from(name),
        recurrence_type: RecurrenceType::Daily,
        recurrence_value: 1,
        next_due_date: String::from(due),
        created_at: String::from("2025-01-01T00:00:00"),
        updated_at: String::from("2025-01-01T00:00:00"),
    }
}

fn three_tasks() -> Vec<Task> {
    vec![
        task(1, "water plants", "2025-06-10"),
        task(2, "clean filter", "2025-06-12"),
        task(3, "change sheets", "2025-06-20"),
    ]
}

#[test]
fn dashboard_rotations_wrap_modulo_six() {
    let mut nav = ViewNavigator::new();
    assert_eq!(nav.ctx.state, ViewState::Dashboard);
    for _ in 0..7 {
        nav.handle_clockwise();
    }
    // 7 mod 6
    assert_eq!(nav.ctx.dashboard_index, 1);
    let mut nav2 = ViewNavigator::new();
    for _ in 0..6 {
        nav2.handle_clockwise();
    }
    assert_eq!(nav2.ctx.dashboard_index, 0);
}

#[test]
fn dashboard_rotation_mix_is_commutative() {
    // one step back then two forward lands on 1, in any order
    let mut a = ViewNavigator::new();
    a.handle_counter_clockwise();
    a.handle_clockwise();
    a.handle_clockwise();
    let mut b = ViewNavigator::new();
    b.handle_clockwise();
    b.handle_counter_clockwise();
    b.handle_clockwise();
    assert_eq!(a.ctx.dashboard_index, 1);
    assert_eq!(b.ctx.dashboard_index, 1);
}

#[test]
fn dashboard_counter_clockwise_wraps_to_five() {
    let mut nav = ViewNavigator::new();
    nav.handle_counter_clockwise();
    assert_eq!(nav.ctx.dashboard_index, 5);
}

#[test]
fn tasklist_cursor_cycle_length_is_len_plus_one() {
    let mut nav = ViewNavigator::new();
    nav.set_tasks(three_tasks());
    nav.ctx.state = ViewState::TaskList;
    assert_eq!(nav.ctx.task_index, 0);
    let walk: Vec<i32> = (0..4)
        .map(|_| {
            nav.handle_clockwise();
            nav.ctx.task_index
        })
        .collect();
    // 0 -> 1 -> 2 -> back sentinel -> 0 again
    assert_eq!(walk, vec![1, 2, -1, 0]);
}

#[test]
fn tasklist_counter_clockwise_walks_through_sentinel() {
    let mut nav = ViewNavigator::new();
    nav.set_tasks(three_tasks());
    nav.ctx.state = ViewState::TaskList;
    nav.handle_counter_clockwise();
    assert_eq!(nav.ctx.task_index, -1);
    nav.handle_counter_clockwise();
    assert_eq!(nav.ctx.task_index, 2);
}

#[test]
fn tasklist_rotation_is_noop_when_empty() {
    let mut nav = ViewNavigator::new();
    nav.ctx.state = ViewState::TaskList;
    nav.handle_clockwise();
    assert_eq!(nav.ctx.task_index, 0);
    nav.handle_counter_clockwise();
    assert_eq!(nav.ctx.task_index, 0);
}

#[test]
fn replace_tasks_clamps_cursor_to_last_index() {
    let mut nav = ViewNavigator::new();
    nav.ctx.task_index = 7;
    let five: Vec<Task> = (1..=5).map(|i| task(i, "t", "2025-06-10")).collect();
    nav.set_tasks(five);
    // clamped to 4, never to the -1 sentinel
    assert_eq!(nav.ctx.task_index, 4);
}

#[test]
fn replace_tasks_keeps_sentinel_cursor() {
    let mut nav = ViewNavigator::new();
    nav.set_tasks(three_tasks());
    nav.ctx.task_index = -1;
    nav.set_tasks(three_tasks());
    assert_eq!(nav.ctx.task_index, -1);
}

#[test]
fn delete_flow_confirms_then_returns_token() {
    let mut nav = ViewNavigator::new();
    nav.set_tasks(three_tasks());
    nav.ctx.state = ViewState::TaskActions;
    // rotate the action menu onto "Delete"
    nav.handle_clockwise();
    nav.handle_clockwise();
    assert_eq!(nav.ctx.action_index, 2);
    let token = nav.handle_press();
    assert_eq!(token, None);
    assert_eq!(nav.ctx.state, ViewState::DeleteConfirm);
    assert!(!nav.ctx.delete_confirmed);
    nav.handle_clockwise();
    assert!(nav.ctx.delete_confirmed);
    let token = nav.handle_press();
    assert_eq!(token, Some("delete"));
    assert_eq!(nav.ctx.state, ViewState::TaskList);
}

#[test]
fn delete_unconfirmed_returns_to_actions() {
    let mut nav = ViewNavigator::new();
    nav.set_tasks(three_tasks());
    nav.ctx.state = ViewState::DeleteConfirm;
    nav.ctx.delete_confirmed = false;
    let token = nav.handle_press();
    assert_eq!(token, None);
    assert_eq!(nav.ctx.state, ViewState::TaskActions);
}

#[test]
fn dashboard_press_selects_filters_and_screens() {
    let mut nav = ViewNavigator::new();
    assert_eq!(nav.handle_press(), Some("filter_tasks"));
    assert_eq!(nav.ctx.state, ViewState::TaskList);
    assert_eq!(nav.ctx.filtered_urgency.as_deref(), Some("overdue"));

    let mut nav = ViewNavigator::new();
    nav.ctx.dashboard_index = 1;
    assert_eq!(nav.handle_press(), Some("filter_tasks"));
    assert_eq!(nav.ctx.filtered_urgency.as_deref(), Some("today"));

    // the Total count selects the task list with no filter at all
    let mut nav = ViewNavigator::new();
    nav.ctx.dashboard_index = 3;
    assert_eq!(nav.handle_press(), Some("filter_tasks"));
    assert_eq!(nav.ctx.state, ViewState::TaskList);
    assert_eq!(nav.ctx.filtered_urgency, None);
    assert_eq!(nav.ctx.task_index, 0);
    // and with an empty list it projects the plain empty card
    assert!(matches!(nav.get_render_command(), RenderCommand::Empty));

    let mut nav = ViewNavigator::new();
    nav.ctx.dashboard_index = 4;
    assert_eq!(nav.handle_press(), Some("show_all_tasks"));
    assert_eq!(nav.ctx.filtered_urgency, None);
    assert_eq!(nav.ctx.state, ViewState::TaskList);

    let mut nav = ViewNavigator::new();
    nav.ctx.dashboard_index = 5;
    assert_eq!(nav.handle_press(), Some("show_settings"));
    assert_eq!(nav.ctx.state, ViewState::Settings);
}

#[test]
fn back_card_press_goes_to_dashboard() {
    let mut nav = ViewNavigator::new();
    nav.set_tasks(three_tasks());
    nav.ctx.state = ViewState::TaskList;
    nav.ctx.task_index = -1;
    nav.ctx.filtered_urgency = Some(String::from("week"));
    assert_eq!(nav.handle_press(), Some("go_dashboard"));
    assert_eq!(nav.ctx.state, ViewState::Dashboard);
    assert_eq!(nav.ctx.filtered_urgency, None);
    assert_eq!(nav.ctx.task_index, 0);
}

#[test]
fn task_actions_complete_and_history() {
    let mut nav = ViewNavigator::new();
    nav.set_tasks(three_tasks());
    nav.ctx.state = ViewState::TaskActions;
    nav.ctx.completing_progress = 700;
    assert_eq!(nav.handle_press(), Some("complete"));
    assert_eq!(nav.ctx.state, ViewState::Completing);
    assert_eq!(nav.ctx.completing_progress, 0);
    nav.complete_animation_done();
    assert_eq!(nav.ctx.state, ViewState::TaskList);

    nav.ctx.state = ViewState::TaskActions;
    nav.ctx.action_index = 1;
    nav.ctx.history_index = 3;
    assert_eq!(nav.handle_press(), Some("load_history"));
    assert_eq!(nav.ctx.state, ViewState::TaskHistory);
    assert_eq!(nav.ctx.history_index, 0);
}

#[test]
fn settings_press_toggles_and_navigates() {
    let mut nav = ViewNavigator::new();
    nav.ctx.state = ViewState::Settings;
    assert_eq!(nav.handle_press(), Some("show_qr"));
    assert_eq!(nav.ctx.state, ViewState::QrCode);

    let mut nav = ViewNavigator::new();
    nav.ctx.state = ViewState::Settings;
    nav.ctx.setting_index = 1;
    assert!(nav.ctx.screen_timeout_enabled);
    assert_eq!(nav.handle_press(), Some("toggle_timeout"));
    assert!(!nav.ctx.screen_timeout_enabled);
    assert_eq!(nav.ctx.state, ViewState::Settings);

    let mut nav = ViewNavigator::new();
    nav.ctx.state = ViewState::Settings;
    nav.ctx.setting_index = 2;
    assert_eq!(nav.handle_press(), None);
    assert_eq!(nav.ctx.state, ViewState::Dashboard);
}

#[test]
fn settings_selection_saturates() {
    let mut nav = ViewNavigator::new();
    nav.ctx.state = ViewState::Settings;
    for _ in 0..5 {
        nav.handle_clockwise();
    }
    assert_eq!(nav.ctx.setting_index, 2);
    for _ in 0..5 {
        nav.handle_counter_clockwise();
    }
    assert_eq!(nav.ctx.setting_index, 0);
}

#[test]
fn history_cursor_saturates() {
    let mut nav = ViewNavigator::new();
    let records: Vec<CompletionRecord> = (0..3)
        .map(|i| CompletionRecord {
            id: i,
            task_id: 1,
            completed_at: format!("2025-06-0{}T08:00:00", i + 1),
            days_since_last: None,
        })
        .collect();
    nav.set_history(records);
    nav.ctx.state = ViewState::TaskHistory;
    for _ in 0..5 {
        nav.handle_clockwise();
    }
    assert_eq!(nav.ctx.history_index, 2);
    for _ in 0..5 {
        nav.handle_counter_clockwise();
    }
    assert_eq!(nav.ctx.history_index, 0);
}

#[test]
fn long_press_escapes_towards_dashboard() {
    let mut nav = ViewNavigator::new();
    nav.set_tasks(three_tasks());
    nav.ctx.state = ViewState::TaskActions;
    assert_eq!(nav.handle_long_press(), None);
    assert_eq!(nav.ctx.state, ViewState::TaskList);
    nav.ctx.filtered_urgency = Some(String::from("today"));
    assert_eq!(nav.handle_long_press(), Some("go_dashboard"));
    assert_eq!(nav.ctx.state, ViewState::Dashboard);
    assert_eq!(nav.ctx.filtered_urgency, None);
    assert_eq!(nav.handle_long_press(), None);
    assert_eq!(nav.ctx.state, ViewState::Dashboard);
}

#[test]
fn long_press_leaves_completing_alone() {
    let mut nav = ViewNavigator::new();
    nav.ctx.state = ViewState::Completing;
    assert_eq!(nav.handle_long_press(), None);
    assert_eq!(nav.ctx.state, ViewState::Completing);
}

#[test]
fn qr_long_press_returns_to_settings() {
    let mut nav = ViewNavigator::new();
    nav.ctx.state = ViewState::QrCode;
    assert_eq!(nav.handle_long_press(), None);
    assert_eq!(nav.ctx.state, ViewState::Settings);
}

#[test]
fn voice_hold_enters_and_leaves_voice_screens() {
    let mut nav = ViewNavigator::new();
    nav.set_tasks(three_tasks());
    nav.ctx.task_index = 2;
    nav.handle_voice_start();
    assert_eq!(nav.ctx.state, ViewState::VoiceListening);
    nav.handle_voice_stop();
    assert_eq!(nav.ctx.state, ViewState::VoiceProcessing);
    nav.set_voice_result(String::from("Added: water plants"));
    assert_eq!(nav.ctx.state, ViewState::VoiceResult);
    nav.dismiss_voice_result();
    assert_eq!(nav.ctx.state, ViewState::Dashboard);
    // the task list and its cursor never moved
    assert_eq!(nav.ctx.tasks.len(), 3);
    assert_eq!(nav.ctx.task_index, 2);
}

#[test]
fn project_tasklist_fans_out_to_four_commands() {
    // empty and filtered: EmptyFiltered with the filter name
    let mut nav = ViewNavigator::new();
    nav.ctx.state = ViewState::TaskList;
    nav.ctx.filtered_urgency = Some(String::from("today"));
    match nav.get_render_command() {
        RenderCommand::EmptyFiltered { filter_name } => assert_eq!(filter_name, "today"),
        _ => panic!("expected an empty-filtered card"),
    }
    // empty and unfiltered: Empty
    nav.ctx.filtered_urgency = None;
    assert!(matches!(nav.get_render_command(), RenderCommand::Empty));
    // a valid cursor: the task card
    nav.set_tasks(three_tasks());
    nav.ctx.task_index = 1;
    match nav.get_render_command() {
        RenderCommand::TaskCard { task_index, total, filtered } => {
            assert_eq!(task_index, 1);
            assert_eq!(total, 3);
            assert_eq!(filtered, None);
        },
        _ => panic!("expected a task card"),
    }
    // the sentinel: the back card
    nav.ctx.task_index = -1;
    match nav.get_render_command() {
        RenderCommand::BackCard { total } => assert_eq!(total, 3),
        _ => panic!("expected the back card"),
    }
}

#[test]
fn project_dashboard_and_menus() {
    let mut nav = ViewNavigator::new();
    nav.set_task_counts(TaskCounts { overdue: 2, today: 1, week: 4, total: 9 });
    nav.ctx.dashboard_index = 3;
    match nav.get_render_command() {
        RenderCommand::Dashboard { counts, selected } => {
            assert_eq!(counts.overdue, 2);
            assert_eq!(counts.today, 1);
            assert_eq!(counts.week, 4);
            assert_eq!(counts.total, 9);
            assert_eq!(selected, 3);
        },
        _ => panic!("expected the dashboard"),
    }
    nav.set_tasks(three_tasks());
    nav.ctx.state = ViewState::TaskActions;
    nav.ctx.task_index = 0;
    nav.ctx.action_index = 2;
    match nav.get_render_command() {
        RenderCommand::ActionMenu { task_name, selected, options } => {
            assert_eq!(task_name, "water plants");
            assert_eq!(selected, 2);
            assert_eq!(options, vec!["Done", "History", "Delete", "Back"]);
        },
        _ => panic!("expected the action menu"),
    }
    nav.ctx.state = ViewState::Completing;
    nav.ctx.completing_progress = 450;
    match nav.get_render_command() {
        RenderCommand::Completing { task_name, progress } => {
            assert_eq!(task_name, "water plants");
            assert_eq!(progress, 450);
        },
        _ => panic!("expected the completing screen"),
    }
}

#[test]
fn project_voice_screens() {
    let mut nav = ViewNavigator::new();
    nav.handle_voice_start();
    nav.ctx.voice_elapsed_ms = 2500;
    match nav.get_render_command() {
        RenderCommand::VoiceListening { elapsed_ms } => assert_eq!(elapsed_ms, 2500),
        _ => panic!("expected the listening screen"),
    }
    nav.handle_voice_stop();
    assert!(matches!(nav.get_render_command(), RenderCommand::VoiceProcessing));
    nav.set_voice_result(String::from("done"));
    match nav.get_render_command() {
        RenderCommand::VoiceResult { message } => assert_eq!(message, "done"),
        _ => panic!("expected the result screen"),
    }
}
