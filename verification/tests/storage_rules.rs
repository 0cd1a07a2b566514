//! Tests for the in-memory stores: CRUD, aggregation, filtering,
//! history, and the completion rule.

use kiosk_core::dates::parse_iso_date;
use kiosk_core::models::RecurrenceType;
use kiosk_core::storage::Storage;

fn day(iso: &str) -> i32 {
    parse_iso_date(iso).expect("a valid test date")
}

fn seeded() -> Storage {
    let mut s = Storage::new();
    s.create_task(
        String::from("water plants"),
        RecurrenceType::Daily,
        3,
        String::from("2025-06-10"),
        "2025-06-01T08:00:00",
    );
    s.create_task(
        String::from("clean filter"),
        RecurrenceType::Weekly,
        2,
        String::from("2025-06-15"),
        "2025-06-01T08:00:00",
    );
    s.create_task(
        String::from("change sheets"),
        RecurrenceType::Monthly,
        1,
        String::from("2025-06-20"),
        "2025-06-01T08:00:00",
    );
    s
}

#[test]
fn create_assigns_sequential_ids() {
    let s = seeded();
    let ids: Vec<u32> = s.task_store.tasks.iter().map(|t| t.id).collect();
    assert_eq!(ids, vec![0, 1, 2]);
    assert_eq!(s.task_store.next_id, 3);
}

#[test]
fn get_task_finds_by_id() {
    let s = seeded();
    assert_eq!(s.get_task(1).map(|t| t.name.as_str()), Some("clean filter"));
    assert!(s.get_task(9).is_none());
}

#[test]
fn get_all_tasks_sorts_by_due_date() {
    let mut s = Storage::new();
    s.create_task(
        String::from("late"),
        RecurrenceType::Daily,
        1,
        String::from("2025-06-20"),
        "2025-06-01T08:00:00",
    );
    s.create_task(
        String::from("early"),
        RecurrenceType::Daily,
        1,
        String::from("2025-06-05"),
        "2025-06-01T08:00:00",
    );
    s.create_task(
        String::from("middle"),
        RecurrenceType::Daily,
        1,
        String::from("2025-06-10"),
        "2025-06-01T08:00:00",
    );
    let by_due: Vec<String> = s.get_all_tasks(true).iter().map(|t| t.name.clone()).collect();
    assert_eq!(by_due, vec!["early", "middle", "late"]);
    let by_name: Vec<String> = s.get_all_tasks(false).iter().map(|t| t.name.clone()).collect();
    assert_eq!(by_name, vec!["early", "late", "middle"]);
}

#[test]
fn sorting_is_stable_for_equal_keys() {
    let mut s = Storage::new();
    s.create_task(
        String::from("first in"),
        RecurrenceType::Daily,
        1,
        String::from("2025-06-10"),
        "2025-06-01T08:00:00",
    );
    s.create_task(
        String::from("second in"),
        RecurrenceType::Daily,
        1,
        String::from("2025-06-10"),
        "2025-06-01T08:00:00",
    );
    s.create_task(
        String::from("third in"),
        RecurrenceType::Daily,
        1,
        String::from("2025-06-05"),
        "2025-06-01T08:00:00",
    );
    // equal due dates keep store order
    let by_due: Vec<String> = s.get_all_tasks(true).iter().map(|t| t.name.clone()).collect();
    assert_eq!(by_due, vec!["third in", "first in", "second in"]);
    // and the filtered list is an order-preserving subsequence of it
    let filtered: Vec<String> = s
        .get_tasks_by_urgency("overdue", day("2025-06-08"))
        .iter()
        .map(|t| t.name.clone())
        .collect();
    assert_eq!(filtered, vec!["third in"]);
    let week: Vec<String> = s
        .get_tasks_by_urgency("week", day("2025-06-08"))
        .iter()
        .map(|t| t.name.clone())
        .collect();
    assert_eq!(week, vec!["third in", "first in", "second in"]);
}

#[test]
fn update_task_replaces_given_fields_only() {
    let mut s = seeded();
    let updated = s
        .update_task(0, Some(String::from("water garden")), None, Some(5), None, "2025-06-02T09:00:00")
        .expect("task 0 exists");
    assert_eq!(updated.name, "water garden");
    assert_eq!(updated.recurrence_type, RecurrenceType::Daily);
    assert_eq!(updated.recurrence_value, 5);
    assert_eq!(updated.next_due_date, "2025-06-10");
    assert_eq!(updated.updated_at, "2025-06-02T09:00:00");
    assert!(s.update_task(9, None, None, None, None, "2025-06-02T09:00:00").is_none());
}

#[test]
fn delete_task_drops_the_task_and_its_history() {
    let mut s = seeded();
    s.complete_task(1, "2025-06-14T08:00:00", day("2025-06-14"));
    s.complete_task(0, "2025-06-14T09:00:00", day("2025-06-14"));
    assert_eq!(s.history_store.records.len(), 2);
    assert!(s.delete_task(1));
    assert_eq!(s.task_store.tasks.len(), 2);
    assert!(s.get_task(1).is_none());
    // only task 0's record survives
    assert_eq!(s.history_store.records.len(), 1);
    assert_eq!(s.history_store.records[0].task_id, 0);
    // deleting again reports nothing to delete
    assert!(!s.delete_task(1));
}

#[test]
fn complete_task_records_and_steps_the_schedule() {
    let mut s = seeded();
    // daily, every 3 days, due 2025-06-10: the next due steps from the
    // previous due date, not from today
    assert!(s.complete_task(0, "2025-06-12T07:30:00", day("2025-06-12")));
    let t = s.get_task(0).unwrap();
    assert_eq!(t.next_due_date, "2025-06-13");
    assert_eq!(t.updated_at, "2025-06-12T07:30:00");
    let rec = &s.history_store.records[0];
    assert_eq!(rec.task_id, 0);
    assert_eq!(rec.completed_at, "2025-06-12T07:30:00");
    assert_eq!(rec.days_since_last, None);
    // a second completion measures days since the first
    assert!(s.complete_task(0, "2025-06-18T10:00:00", day("2025-06-18")));
    let rec2 = &s.history_store.records[1];
    assert_eq!(rec2.days_since_last, Some(6));
    let t = s.get_task(0).unwrap();
    assert_eq!(t.next_due_date, "2025-06-16");
    // a missing task changes nothing
    assert!(!s.complete_task(9, "2025-06-18T10:00:00", day("2025-06-18")));
}

#[test]
fn complete_task_steps_weekly_and_monthly() {
    let mut s = seeded();
    assert!(s.complete_task(1, "2025-06-16T08:00:00", day("2025-06-16")));
    assert_eq!(s.get_task(1).unwrap().next_due_date, "2025-06-29");
    assert!(s.complete_task(2, "2025-06-21T08:00:00", day("2025-06-21")));
    assert_eq!(s.get_task(2).unwrap().next_due_date, "2025-07-20");
}

#[test]
fn task_counts_bucket_by_days_until_due() {
    let s = seeded();
    // today 2025-06-12: task 0 overdue (due 06-10), task 1 in 3 days,
    // task 2 in 8 days
    let counts = s.get_task_counts(day("2025-06-12"));
    assert_eq!(counts.overdue, 1);
    assert_eq!(counts.today, 0);
    assert_eq!(counts.week, 2);
    assert_eq!(counts.total, 3);
    // on the due day itself the task counts as due today
    let counts = s.get_task_counts(day("2025-06-10"));
    assert_eq!(counts.overdue, 0);
    assert_eq!(counts.today, 1);
    assert_eq!(counts.week, 2);
}

#[test]
fn tasks_by_urgency_filter_and_sort() {
    let s = seeded();
    let today = day("2025-06-16");
    let overdue: Vec<String> =
        s.get_tasks_by_urgency("overdue", today).iter().map(|t| t.name.clone()).collect();
    assert_eq!(overdue, vec!["water plants", "clean filter"]);
    let week: Vec<String> =
        s.get_tasks_by_urgency("week", today).iter().map(|t| t.name.clone()).collect();
    assert_eq!(week, vec!["water plants", "clean filter", "change sheets"]);
    let due_today: Vec<String> =
        s.get_tasks_by_urgency("today", day("2025-06-15")).iter().map(|t| t.name.clone()).collect();
    assert_eq!(due_today, vec!["clean filter"]);
    // an unknown category returns everything, sorted by due date
    let all: Vec<String> =
        s.get_tasks_by_urgency("total", today).iter().map(|t| t.name.clone()).collect();
    assert_eq!(all, vec!["water plants", "clean filter", "change sheets"]);
}

#[test]
fn history_comes_back_newest_first() {
    let mut s = seeded();
    s.complete_task(0, "2025-06-03T08:00:00", day("2025-06-03"));
    s.complete_task(0, "2025-06-07T08:00:00", day("2025-06-07"));
    s.complete_task(1, "2025-06-05T08:00:00", day("2025-06-05"));
    s.complete_task(0, "2025-06-05T08:00:00", day("2025-06-05"));
    let h = s.get_task_history(0);
    let stamps: Vec<String> = h.iter().map(|r| r.completed_at.clone()).collect();
    assert_eq!(
        stamps,
        vec!["2025-06-07T08:00:00", "2025-06-05T08:00:00", "2025-06-03T08:00:00"]
    );
    assert!(h.iter().all(|r| r.task_id == 0));
}

#[test]
fn history_caps_at_fifty_entries() {
    let mut s = Storage::new();
    s.create_task(
        String::from("daily"),
        RecurrenceType::Daily,
        1,
        String::from("2025-01-01"),
        "2025-01-01T00:00:00",
    );
    for i in 0..60 {
        let stamp = format!("2025-03-01T{:02}:{:02}:00", i / 60, i % 60);
        s.complete_task(0, &stamp, day("2025-03-01"));
    }
    let h = s.get_task_history(0);
    assert_eq!(h.len(), 50);
    // still sorted newest first
    for w in h.windows(2) {
        assert!(w[0].completed_at >= w[1].completed_at);
    }
    // exactly the ten oldest were dropped
    assert_eq!(h[0].completed_at, "2025-03-01T00:59:00");
    assert_eq!(h[49].completed_at, "2025-03-01T00:10:00");
}

#[test]
fn last_completion_takes_the_latest_stamp() {
    let mut s = seeded();
    assert!(s.get_last_completion(0).is_none());
    s.complete_task(0, "2025-06-03T08:00:00", day("2025-06-03"));
    s.complete_task(0, "2025-06-09T08:00:00", day("2025-06-09"));
    s.complete_task(0, "2025-06-05T08:00:00", day("2025-06-05"));
    let last = s.get_last_completion(0).unwrap();
    assert_eq!(last.completed_at, "2025-06-09T08:00:00");
}

#[test]
fn unparseable_due_date_counts_as_due_now() {
    let mut s = Storage::new();
    s.create_task(
        String::from("odd"),
        RecurrenceType::Daily,
        1,
        String::from("whenever"),
        "2025-01-01T00:00:00",
    );
    // days-until-due falls back to 0: counted as due today
    let counts = s.get_task_counts(day("2025-06-12"));
    assert_eq!(counts.today, 1);
    // completion still records, but the schedule cannot step
    assert!(s.complete_task(0, "2025-06-12T08:00:00", day("2025-06-12")));
    assert_eq!(s.get_task(0).unwrap().next_due_date, "whenever");
}
