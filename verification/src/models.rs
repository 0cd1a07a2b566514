//! Data model for recurring tasks and their completion history.

use vstd::prelude::*;

use crate::dates::{display_date, format_display_date, iso_date_days, parse_iso_date};

verus! {

/// Task recurrence patterns.
#[derive(Debug, Clone, Copy, PartialEq, Eq, Structural)]
pub enum RecurrenceType {
    Daily,
    Weekly,
    Monthly,
    Yearly,
}

impl RecurrenceType {
    pub fn as_str(&self) -> (r: &'static str)
        ensures
            r@ == match self {
                RecurrenceType::Daily => "daily"@,
                RecurrenceType::Weekly => "weekly"@,
                RecurrenceType::Monthly => "monthly"@,
                RecurrenceType::Yearly => "yearly"@,
            },
    {
        match self {
            Self::Daily => "daily",
            Self::Weekly => "weekly",
            Self::Monthly => "monthly",
            Self::Yearly => "yearly",
        }
    }
}

/// Task urgency levels based on days until due.
#[derive(Debug, Clone, Copy, PartialEq, Eq, Structural)]
pub enum Urgency {
    Overdue,
    Today,
    Tomorrow,
    Week,
    Upcoming,
}

/// The urgency category that a count of days until due falls in.
pub open spec fn urgency_of_days(days: int) -> Urgency {
    if days < 0 {
        Urgency::Overdue
    } else if days == 0 {
        Urgency::Today
    } else if days == 1 {
        Urgency::Tomorrow
    } else if days <= 7 {
        Urgency::Week
    } else {
        Urgency::Upcoming
    }
}

impl Urgency {
    /// Determine urgency from days until due.
    pub fn from_days(days: i32) -> (r: Self)
        ensures
            r == urgency_of_days(days as int),
    {
        if days < 0 {
            Self::Overdue
        } else if days == 0 {
            Self::Today
        } else if days == 1 {
            Self::Tomorrow
        } else if days <= 7 {
            Self::Week
        } else {
            Self::Upcoming
        }
    }

    pub fn as_str(&self) -> (r: &'static str)
        ensures
            r@ == match self {
                Urgency::Overdue => "overdue"@,
                Urgency::Today => "today"@,
                Urgency::Tomorrow => "tomorrow"@,
                Urgency::Week => "week"@,
                Urgency::Upcoming => "upcoming"@,
            },
    {
        match self {
            Self::Overdue => "overdue",
            Self::Today => "today",
            Self::Tomorrow => "tomorrow",
            Self::Week => "week",
            Self::Upcoming => "upcoming",
        }
    }
}

/// Mathematical value of a [`Task`].
pub ghost struct TaskView {
    pub id: int,
    pub name: Seq<char>,
    pub recurrence_type: RecurrenceType,
    pub recurrence_value: int,
    pub next_due_date: Seq<char>,
    pub created_at: Seq<char>,
    pub updated_at: Seq<char>,
}

/// A recurring task. Dates are ISO strings: `next_due_date` is
/// `"YYYY-MM-DD"`, the bookkeeping stamps are ISO datetimes.
#[derive(Debug)]
pub struct Task {
    pub id: u32,
    pub name: String,
    pub recurrence_type: RecurrenceType,
    pub recurrence_value: u32,
    pub next_due_date: String,
    pub created_at: String,
    pub updated_at: String,
}

impl View for Task {
    type V = TaskView;

    open spec fn view(&self) -> TaskView {
        TaskView {
            id: self.id as int,
            name: self.name@,
            recurrence_type: self.recurrence_type,
            recurrence_value: self.recurrence_value as int,
            next_due_date: self.next_due_date@,
            created_at: self.created_at@,
            updated_at: self.updated_at@,
        }
    }
}

impl Clone for Task {
    fn clone(&self) -> (r: Self)
        ensures
            r@ == self@,
    {
        Task {
            id: self.id,
            name: self.name.clone(),
            recurrence_type: self.recurrence_type,
            recurrence_value: self.recurrence_value,
            next_due_date: self.next_due_date.clone(),
            created_at: self.created_at.clone(),
            updated_at: self.updated_at.clone(),
        }
    }
}

/// Days from a reference day to the task's due date: the parsed due date
/// minus `today`, or 0 when the due date does not parse.
pub open spec fn spec_days_until_due(t: TaskView, today: int) -> int {
    match iso_date_days(t.next_due_date) {
        Some(due) => due - today,
        None => 0,
    }
}

impl Task {
    /// The due date as a proleptic-Gregorian day count (day 1 is
    /// January 1 of year 1 CE), or `None` when the string does not parse.
    pub fn due_date(&self) -> (r: Option<i32>)
        ensures
            r is Some <==> iso_date_days(self.next_due_date@) is Some,
            r matches Some(d) ==> iso_date_days(self.next_due_date@) == Some(d as int),
            r matches Some(d) ==> -96_000_000 <= d <= 96_000_000,
    {
        parse_iso_date(&self.next_due_date)
    }

    /// Calculate days until the task is due, given today's day count.
    pub fn days_until_due(&self, today: i32) -> (r: i32)
        requires
            -96_000_000 <= today <= 96_000_000,
        ensures
            r as int == spec_days_until_due(self@, today as int),
    {
        match self.due_date() {
            Some(due) => due - today,
            None => 0,
        }
    }

    /// Get the urgency level, given today's day count.
    pub fn urgency(&self, today: i32) -> (r: Urgency)
        requires
            -96_000_000 <= today <= 96_000_000,
        ensures
            r == urgency_of_days(spec_days_until_due(self@, today as int)),
    {
        Urgency::from_days(self.days_until_due(today))
    }

    /// Format the due date for display (e.g. "Jan 15, 2026"), falling back
    /// to the raw string when it does not parse.
    pub fn formatted_due_date(&self) -> (r: String)
        ensures
            r@ == if iso_date_days(self.next_due_date@) is Some {
                display_date(self.next_due_date@)
            } else {
                self.next_due_date@
            },
    {
        match format_display_date(&self.next_due_date) {
            Some(t) => t,
            None => self.next_due_date.clone(),
        }
    }
}

/// Mathematical value of a [`CompletionRecord`].
pub ghost struct RecordView {
    pub id: int,
    pub task_id: int,
    pub completed_at: Seq<char>,
    pub days_since_last: Option<int>,
}

/// Record of one task completion. `completed_at` is an ISO datetime.
#[derive(Debug)]
pub struct CompletionRecord {
    pub id: u32,
    pub task_id: u32,
    pub completed_at: String,
    pub days_since_last: Option<i32>,
}

impl View for CompletionRecord {
    type V = RecordView;

    open spec fn view(&self) -> RecordView {
        RecordView {
            id: self.id as int,
            task_id: self.task_id as int,
            completed_at: self.completed_at@,
            days_since_last: match self.days_since_last {
                Some(d) => Some(d as int),
                None => None,
            },
        }
    }
}

impl Clone for CompletionRecord {
    fn clone(&self) -> (r: Self)
        ensures
            r@ == self@,
    {
        CompletionRecord {
            id: self.id,
            task_id: self.task_id,
            completed_at: self.completed_at.clone(),
            days_since_last: self.days_since_last,
        }
    }
}

/// Index of the first `'T'` in `s`, or `s.len()` when there is none: the
/// length of the date part of an ISO datetime.
pub open spec fn t_pos(s: Seq<char>) -> int
    decreases s.len(),
{
    if s.len() == 0 {
        0
    } else if s[0] == 'T' {
        0
    } else {
        1 + t_pos(s.drop_first())
    }
}

pub proof fn lemma_t_pos_bounds(s: Seq<char>)
    ensures
        0 <= t_pos(s) <= s.len(),
        forall|i: int| 0 <= i < t_pos(s) ==> s[i] != 'T',
        t_pos(s) < s.len() ==> s[t_pos(s)] == 'T',
    decreases s.len(),
{
    if s.len() != 0 && s[0] != 'T' {
        lemma_t_pos_bounds(s.drop_first());
        assert forall|i: int| 0 <= i < t_pos(s) implies s[i] != 'T' by {
            if i > 0 {
                assert(s.drop_first()[i - 1] != 'T');
            }
        }
        if t_pos(s) < s.len() {
            assert(s.drop_first()[t_pos(s) - 1] == 'T');
        }
    }
}

/// The date part of an ISO datetime: everything before the first `'T'`.
pub fn date_prefix(s: &str) -> (r: &str)
    ensures
        r@ == s@.take(t_pos(s@)),
{
    proof {
        lemma_t_pos_bounds(s@);
    }
    let n: usize = s.unicode_len();
    let mut i: usize = 0;
    while i < n
        invariant
            0 <= i <= n,
            n == s@.len(),
            forall|j: int| 0 <= j < i ==> s@[j] != 'T',
        decreases n - i,
    {
        if s.get_char(i) == 'T' {
            proof {
                lemma_t_pos_prefix(s@, i as int);
            }
            return s.substring_char(0, i);
        }
        i += 1;
    }
    proof {
        lemma_t_pos_prefix(s@, n as int);
        assert(s@.take(t_pos(s@)) =~= s@);
    }
    s
}

/// If no `'T'` occurs before position `i`, and either `i` is the length of
/// `s` or `s[i]` is `'T'`, then `i` is `t_pos(s)`.
proof fn lemma_t_pos_prefix(s: Seq<char>, i: int)
    requires
        0 <= i <= s.len(),
        forall|j: int| 0 <= j < i ==> s[j] != 'T',
        i < s.len() ==> s[i] == 'T',
    ensures
        t_pos(s) == i,
    decreases s.len(),
{
    if s.len() != 0 && s[0] != 'T' {
        assert forall|j: int| 0 <= j < i - 1 implies s.drop_first()[j] != 'T' by {
            assert(s[j + 1] != 'T');
        }
        lemma_t_pos_prefix(s.drop_first(), i - 1);
    }
}

impl CompletionRecord {
    /// Format the completion date for display (e.g. "Jan 15, 2026"): the
    /// date part before any `'T'` is parsed and formatted; on a parse
    /// failure the raw string comes back.
    pub fn formatted_date(&self) -> (r: String)
        ensures
            r@ == if iso_date_days(self.completed_at@.take(t_pos(self.completed_at@))) is Some {
                display_date(self.completed_at@.take(t_pos(self.completed_at@)))
            } else {
                self.completed_at@
            },
    {
        let day_part = date_prefix(self.completed_at.as_str());
        match format_display_date(day_part) {
            Some(t) => t,
            None => self.completed_at.clone(),
        }
    }
}

/// Task data prepared for rendering.
#[derive(Debug)]
pub struct TaskDisplayData {
    pub name: String,
    pub days_until_due: i32,
    pub urgency: String,
    pub next_due_date: String,
}

/// History entry prepared for rendering.
#[derive(Debug)]
pub struct HistoryDisplayEntry {
    pub completed_at: String,
    pub days_since_last: Option<i32>,
}

} // verus!
