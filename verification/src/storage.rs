//! In-memory task and history stores with the CRUD, aggregation and
//! filtering rules of the kiosk. Persisting the stores to disk is the
//! host's business; everything here is pure data manipulation.

use vstd::multiset::Multiset;
use vstd::prelude::*;
use vstd::seq_lib::group_to_multiset_ensures;

use crate::dates::{format_iso_date, iso_date_days, iso_of_days, parse_iso_date};
use crate::models::{
    date_prefix, spec_days_until_due, t_pos, CompletionRecord, RecordView, RecurrenceType, Task,
    TaskView,
};
use crate::text::{
    lemma_lex_le_refl, lemma_lex_le_total, lemma_lex_le_trans, lex_le, str_eq, str_le,
};
use crate::views::{records_view, tasks_view, TaskCounts};

verus! {

/// Task store: the tasks and the next fresh task id.
#[derive(Debug)]
pub struct TaskStore {
    pub tasks: Vec<Task>,
    pub next_id: u32,
}

/// History store: completion records and the next fresh record id.
#[derive(Debug)]
pub struct HistoryStore {
    pub records: Vec<CompletionRecord>,
    pub next_id: u32,
}

/// Combined in-memory storage.
#[derive(Debug)]
pub struct Storage {
    pub task_store: TaskStore,
    pub history_store: HistoryStore,
}

/// The key that a sort of the task list compares: the due date string
/// or the name.
pub open spec fn task_key(t: TaskView, by_due: bool) -> Seq<char> {
    if by_due {
        t.next_due_date
    } else {
        t.name
    }
}

/// The task sequence is sorted by the chosen key.
pub open spec fn tasks_sorted(s: Seq<TaskView>, by_due: bool) -> bool {
    forall|i: int, j: int|
        0 <= i < j < s.len() ==> lex_le(task_key(#[trigger] s[i], by_due), task_key(#[trigger] s[j], by_due))
}

/// The record sequence is sorted by completion time, newest first.
pub open spec fn records_sorted_desc(s: Seq<RecordView>) -> bool {
    forall|i: int, j: int|
        0 <= i < j < s.len() ==> lex_le(#[trigger] s[j].completed_at, #[trigger] s[i].completed_at)
}

/// Index of the first task with the given id.
pub open spec fn find_task(s: Seq<Task>, id: int) -> Option<int>
    decreases s.len(),
{
    if s.len() == 0 {
        None
    } else if s[0]@.id == id {
        Some(0)
    } else {
        match find_task(s.drop_first(), id) {
            Some(i) => Some(i + 1),
            None => None,
        }
    }
}

proof fn lemma_find_task_props(s: Seq<Task>, id: int)
    ensures
        find_task(s, id) matches Some(i) ==> 0 <= i < s.len() && s[i]@.id == id && (forall|j: int|
            0 <= j < i ==> s[j]@.id != id),
        find_task(s, id) is None ==> forall|j: int| 0 <= j < s.len() ==> s[j]@.id != id,
    decreases s.len(),
{
    if s.len() > 0 && s[0]@.id != id {
        lemma_find_task_props(s.drop_first(), id);
        match find_task(s, id) {
            Some(i) => {
                assert(find_task(s.drop_first(), id) == Some(i - 1));
                assert(s.drop_first()[i - 1] == s[i]);
                assert forall|j: int| 0 <= j < i implies s[j]@.id != id by {
                    if j > 0 {
                        assert(s.drop_first()[j - 1]@.id != id);
                    }
                }
            },
            None => {
                assert forall|j: int| 0 <= j < s.len() implies s[j]@.id != id by {
                    if j > 0 {
                        assert(s.drop_first()[j - 1]@.id != id);
                    }
                }
            },
        }
    }
}

/// If no task before `i` has the id, and `i` is the length or a match,
/// then `find_task` lands exactly on `i`.
proof fn lemma_find_task_at(s: Seq<Task>, id: int, i: int)
    requires
        0 <= i <= s.len(),
        forall|j: int| 0 <= j < i ==> s[j]@.id != id,
        i < s.len() ==> s[i]@.id == id,
    ensures
        find_task(s, id) == if i == s.len() {
            None::<int>
        } else {
            Some(i)
        },
    decreases s.len(),
{
    if s.len() > 0 && s[0]@.id != id {
        assert forall|j: int| 0 <= j < i - 1 implies s.drop_first()[j]@.id != id by {
            assert(s[j + 1]@.id != id);
        }
        lemma_find_task_at(s.drop_first(), id, i - 1);
    }
}

/// The task views that survive deleting an id.
pub open spec fn tasks_without(s: Seq<Task>, id: int) -> Seq<TaskView>
    decreases s.len(),
{
    if s.len() == 0 {
        Seq::empty()
    } else if s[0]@.id == id {
        tasks_without(s.drop_first(), id)
    } else {
        seq![s[0]@] + tasks_without(s.drop_first(), id)
    }
}

proof fn lemma_tasks_without_push(s: Seq<Task>, id: int, x: Task)
    ensures
        tasks_without(s.push(x), id) == if x@.id == id {
            tasks_without(s, id)
        } else {
            tasks_without(s, id).push(x@)
        },
    decreases s.len(),
{
    if s.len() == 0 {
        assert(s.push(x)[0] == x);
        assert(s.push(x).drop_first() =~= Seq::empty());
        assert(tasks_without(s, id).push(x@) =~= seq![x@] + tasks_without(Seq::empty(), id));
    } else {
        assert(s.push(x)[0] == s[0]);
        assert(s.push(x).drop_first() =~= s.drop_first().push(x));
        lemma_tasks_without_push(s.drop_first(), id, x);
        if x@.id != id && s[0]@.id != id {
            assert(tasks_without(s, id).push(x@) =~= seq![s[0]@] + tasks_without(
                s.drop_first(),
                id,
            ).push(x@));
        }
    }
}

/// The record views that survive deleting a task's history.
pub open spec fn records_without(s: Seq<CompletionRecord>, task_id: int) -> Seq<RecordView>
    decreases s.len(),
{
    if s.len() == 0 {
        Seq::empty()
    } else if s[0]@.task_id == task_id {
        records_without(s.drop_first(), task_id)
    } else {
        seq![s[0]@] + records_without(s.drop_first(), task_id)
    }
}

proof fn lemma_records_without_push(s: Seq<CompletionRecord>, task_id: int, x: CompletionRecord)
    ensures
        records_without(s.push(x), task_id) == if x@.task_id == task_id {
            records_without(s, task_id)
        } else {
            records_without(s, task_id).push(x@)
        },
    decreases s.len(),
{
    if s.len() == 0 {
        assert(s.push(x)[0] == x);
        assert(s.push(x).drop_first() =~= Seq::empty());
        assert(records_without(s, task_id).push(x@) =~= seq![x@] + records_without(
            Seq::empty(),
            task_id,
        ));
    } else {
        assert(s.push(x)[0] == s[0]);
        assert(s.push(x).drop_first() =~= s.drop_first().push(x));
        lemma_records_without_push(s.drop_first(), task_id, x);
        if x@.task_id != task_id && s[0]@.task_id != task_id {
            assert(records_without(s, task_id).push(x@) =~= seq![s[0]@] + records_without(
                s.drop_first(),
                task_id,
            ).push(x@));
        }
    }
}

/// The record views belonging to a task, in store order.
pub open spec fn records_for(s: Seq<CompletionRecord>, task_id: int) -> Seq<RecordView>
    decreases s.len(),
{
    if s.len() == 0 {
        Seq::empty()
    } else if s[0]@.task_id == task_id {
        seq![s[0]@] + records_for(s.drop_first(), task_id)
    } else {
        records_for(s.drop_first(), task_id)
    }
}

proof fn lemma_records_for_push(s: Seq<CompletionRecord>, task_id: int, x: CompletionRecord)
    ensures
        records_for(s.push(x), task_id) == if x@.task_id == task_id {
            records_for(s, task_id).push(x@)
        } else {
            records_for(s, task_id)
        },
    decreases s.len(),
{
    if s.len() == 0 {
        assert(s.push(x)[0] == x);
        assert(s.push(x).drop_first() =~= Seq::empty());
        if x@.task_id == task_id {
            assert(records_for(s, task_id).push(x@) =~= seq![x@] + records_for(
                Seq::empty(),
                task_id,
            ));
        }
    } else {
        assert(s.push(x)[0] == s[0]);
        assert(s.push(x).drop_first() =~= s.drop_first().push(x));
        lemma_records_for_push(s.drop_first(), task_id, x);
        if x@.task_id == task_id && s[0]@.task_id == task_id {
            assert(records_for(s, task_id).push(x@) =~= seq![s[0]@] + records_for(
                s.drop_first(),
                task_id,
            ).push(x@));
        }
    }
}

/// The most recent completion of a task: the record with the greatest
/// `completed_at`, the later one on a tie, scanning in store order.
pub open spec fn last_completion(s: Seq<RecordView>, task_id: int) -> Option<RecordView>
    decreases s.len(),
{
    if s.len() == 0 {
        None
    } else {
        let prev = last_completion(s.drop_last(), task_id);
        let x = s.last();
        if x.task_id != task_id {
            prev
        } else {
            match prev {
                None => Some(x),
                Some(p) => if lex_le(p.completed_at, x.completed_at) {
                    Some(x)
                } else {
                    Some(p)
                },
            }
        }
    }
}

/// Days since the last completion of a task, if there was one and its
/// date parses: today's day count minus the completion's.
pub open spec fn spec_days_since_last(s: Seq<RecordView>, task_id: int, today: int) -> Option<
    int,
> {
    match last_completion(s, task_id) {
        Some(lc) => match iso_date_days(lc.completed_at.take(t_pos(lc.completed_at))) {
            Some(d) => Some(today - d),
            None => None,
        },
        None => None,
    }
}

/// The due-date day count after one completion: recurrence stepped from
/// the previous due date (a fixed schedule, not from today).
pub open spec fn next_due_days(from: int, rt: RecurrenceType, value: int) -> int {
    match rt {
        RecurrenceType::Daily => from + value,
        RecurrenceType::Weekly => from + 7 * value,
        RecurrenceType::Monthly => from + 30 * value,
        RecurrenceType::Yearly => from + 365 * value,
    }
}

/// Whether a task falls in an urgency category. The `"week"` category
/// includes everything due in at most 7 days, overdue tasks among them;
/// an unknown category accepts every task.
pub open spec fn urgency_pred(cat: Seq<char>, t: TaskView, today: int) -> bool {
    if cat == "overdue"@ {
        spec_days_until_due(t, today) < 0
    } else if cat == "today"@ {
        spec_days_until_due(t, today) == 0
    } else if cat == "week"@ {
        spec_days_until_due(t, today) <= 7
    } else {
        true
    }
}

/// The task views in an urgency category, in store order.
pub open spec fn tasks_matching(s: Seq<Task>, cat: Seq<char>, today: int) -> Seq<TaskView>
    decreases s.len(),
{
    if s.len() == 0 {
        Seq::empty()
    } else if urgency_pred(cat, s[0]@, today) {
        seq![s[0]@] + tasks_matching(s.drop_first(), cat, today)
    } else {
        tasks_matching(s.drop_first(), cat, today)
    }
}

proof fn lemma_tasks_matching_push(s: Seq<Task>, cat: Seq<char>, today: int, x: Task)
    ensures
        tasks_matching(s.push(x), cat, today) == if urgency_pred(cat, x@, today) {
            tasks_matching(s, cat, today).push(x@)
        } else {
            tasks_matching(s, cat, today)
        },
    decreases s.len(),
{
    if s.len() == 0 {
        assert(s.push(x)[0] == x);
        assert(s.push(x).drop_first() =~= Seq::empty());
        if urgency_pred(cat, x@, today) {
            assert(tasks_matching(s, cat, today).push(x@) =~= seq![x@] + tasks_matching(
                Seq::empty(),
                cat,
                today,
            ));
        }
    } else {
        assert(s.push(x)[0] == s[0]);
        assert(s.push(x).drop_first() =~= s.drop_first().push(x));
        lemma_tasks_matching_push(s.drop_first(), cat, today, x);
        if urgency_pred(cat, x@, today) && urgency_pred(cat, s[0]@, today) {
            assert(tasks_matching(s, cat, today).push(x@) =~= seq![s[0]@] + tasks_matching(
                s.drop_first(),
                cat,
                today,
            ).push(x@));
        }
    }
}

/// How many tasks are overdue.
pub open spec fn count_overdue(s: Seq<TaskView>, today: int) -> int
    decreases s.len(),
{
    if s.len() == 0 {
        0
    } else {
        (if spec_days_until_due(s[0], today) < 0 {
            1int
        } else {
            0int
        }) + count_overdue(s.drop_first(), today)
    }
}

/// How many tasks are due exactly today.
pub open spec fn count_due_today(s: Seq<TaskView>, today: int) -> int
    decreases s.len(),
{
    if s.len() == 0 {
        0
    } else {
        (if spec_days_until_due(s[0], today) == 0 {
            1int
        } else {
            0int
        }) + count_due_today(s.drop_first(), today)
    }
}

/// How many tasks are due within the week, overdue ones included.
pub open spec fn count_week(s: Seq<TaskView>, today: int) -> int
    decreases s.len(),
{
    if s.len() == 0 {
        0
    } else {
        (if spec_days_until_due(s[0], today) <= 7 {
            1int
        } else {
            0int
        }) + count_week(s.drop_first(), today)
    }
}

proof fn lemma_counts_push(s: Seq<TaskView>, today: int, x: TaskView)
    ensures
        count_overdue(s.push(x), today) == count_overdue(s, today) + (if spec_days_until_due(
            x,
            today,
        ) < 0 {
            1int
        } else {
            0int
        }),
        count_due_today(s.push(x), today) == count_due_today(s, today) + (if spec_days_until_due(
            x,
            today,
        ) == 0 {
            1int
        } else {
            0int
        }),
        count_week(s.push(x), today) == count_week(s, today) + (if spec_days_until_due(x, today)
            <= 7 {
            1int
        } else {
            0int
        }),
    decreases s.len(),
{
    if s.len() == 0 {
        assert(s.push(x)[0] == x);
        assert(s.push(x).drop_first() =~= s);
    } else {
        assert(s.push(x)[0] == s[0]);
        assert(s.push(x).drop_first() =~= s.drop_first().push(x));
        lemma_counts_push(s.drop_first(), today, x);
    }
}

/// Mapping to views commutes with removing an element.
proof fn lemma_tasks_view_remove(s: Seq<Task>, i: int)
    requires
        0 <= i < s.len(),
    ensures
        tasks_view(s.remove(i)) =~= tasks_view(s).remove(i),
{
}

proof fn lemma_records_view_remove(s: Seq<CompletionRecord>, i: int)
    requires
        0 <= i < s.len(),
    ensures
        records_view(s.remove(i)) =~= records_view(s).remove(i),
{
}

/// Clone a task vector; the views are identical.
fn clone_tasks(v: &Vec<Task>) -> (r: Vec<Task>)
    ensures
        tasks_view(r@) == tasks_view(v@),
{
    let mut r: Vec<Task> = Vec::new();
    let mut i: usize = 0;
    while i < v.len()
        invariant
            0 <= i <= v@.len(),
            tasks_view(r@) =~= tasks_view(v@.take(i as int)),
        decreases v@.len() - i,
    {
        let ghost prev = r@;
        let copy = v[i].clone();
        r.push(copy);
        proof {
            assert(v@.take(i + 1 as int) =~= v@.take(i as int).push(v@[i as int]));
            assert(tasks_view(r@) =~= tasks_view(prev).push(r@.last()@));
            assert(tasks_view(v@.take(i + 1 as int)) =~= tasks_view(v@.take(i as int)).push(
                v@[i as int]@,
            ));
        }
        i += 1;
    }
    proof {
        assert(v@.take(v@.len() as int) =~= v@);
        assert(tasks_view(r@) =~= tasks_view(v@));
    }
    r
}

fn clone_records(v: &Vec<CompletionRecord>) -> (r: Vec<CompletionRecord>)
    ensures
        records_view(r@) == records_view(v@),
{
    let mut r: Vec<CompletionRecord> = Vec::new();
    let mut i: usize = 0;
    while i < v.len()
        invariant
            0 <= i <= v@.len(),
            records_view(r@) =~= records_view(v@.take(i as int)),
        decreases v@.len() - i,
    {
        let ghost prev = r@;
        let copy = v[i].clone();
        r.push(copy);
        proof {
            assert(v@.take(i + 1 as int) =~= v@.take(i as int).push(v@[i as int]));
            assert(records_view(r@) =~= records_view(prev).push(r@.last()@));
            assert(records_view(v@.take(i + 1 as int)) =~= records_view(v@.take(i as int)).push(
                v@[i as int]@,
            ));
        }
        i += 1;
    }
    proof {
        assert(v@.take(v@.len() as int) =~= v@);
        assert(records_view(r@) =~= records_view(v@));
    }
    r
}

/// A task inserted after every task whose key is at or below its own:
/// the insertion step of a stable sort.
pub open spec fn insert_by_key(t: TaskView, s: Seq<TaskView>, by_due: bool) -> Seq<TaskView>
    decreases s.len(),
{
    if s.len() == 0 {
        seq![t]
    } else if lex_le(task_key(s[0], by_due), task_key(t, by_due)) {
        seq![s[0]] + insert_by_key(t, s.drop_first(), by_due)
    } else {
        seq![t] + s
    }
}

/// The stable sort of a task sequence by the chosen key: tasks enter in
/// their given order, each placed after every earlier task whose key is
/// at or below its own, so tasks with equal keys keep their order.
pub open spec fn sort_by_key(s: Seq<TaskView>, by_due: bool) -> Seq<TaskView>
    decreases s.len(),
{
    if s.len() == 0 {
        Seq::empty()
    } else {
        insert_by_key(s.last(), sort_by_key(s.drop_last(), by_due), by_due)
    }
}

/// Where the insertion lands: at the first index whose key exceeds the
/// new task's.
proof fn lemma_insert_by_key_at(t: TaskView, s: Seq<TaskView>, j: int, by_due: bool)
    requires
        0 <= j <= s.len(),
        forall|idx: int|
            0 <= idx < j ==> lex_le(task_key(#[trigger] s[idx], by_due), task_key(t, by_due)),
        j < s.len() ==> !lex_le(task_key(s[j], by_due), task_key(t, by_due)),
    ensures
        insert_by_key(t, s, by_due) == s.take(j) + seq![t] + s.skip(j),
    decreases j,
{
    if j == 0 {
        if s.len() == 0 {
            assert(insert_by_key(t, s, by_due) =~= s.take(0) + seq![t] + s.skip(0));
        } else {
            assert(insert_by_key(t, s, by_due) =~= s.take(0) + seq![t] + s.skip(0));
        }
    } else {
        assert(lex_le(task_key(s[0], by_due), task_key(t, by_due)));
        assert forall|idx: int| 0 <= idx < j - 1 implies lex_le(
            task_key(#[trigger] s.drop_first()[idx], by_due),
            task_key(t, by_due),
        ) by {
            assert(s.drop_first()[idx] == s[idx + 1]);
        }
        if j - 1 < s.drop_first().len() {
            assert(s.drop_first()[j - 1] == s[j]);
        }
        lemma_insert_by_key_at(t, s.drop_first(), j - 1, by_due);
        assert(insert_by_key(t, s, by_due) =~= s.take(j) + seq![t] + s.skip(j));
    }
}

/// Inserting into a sorted sequence keeps it sorted, adds the new task
/// to the contents, and introduces nothing else.
proof fn lemma_insert_by_key_props(t: TaskView, s: Seq<TaskView>, by_due: bool)
    requires
        tasks_sorted(s, by_due),
    ensures
        insert_by_key(t, s, by_due).len() == s.len() + 1,
        tasks_sorted(insert_by_key(t, s, by_due), by_due),
        insert_by_key(t, s, by_due).to_multiset() == s.to_multiset().insert(t),
        forall|idx: int|
            0 <= idx < insert_by_key(t, s, by_due).len() ==> #[trigger] insert_by_key(
                t,
                s,
                by_due,
            )[idx] == t || s.contains(insert_by_key(t, s, by_due)[idx]),
    decreases s.len(),
{
    broadcast use group_to_multiset_ensures;
    broadcast use vstd::multiset::group_multiset_axioms;

    let r = insert_by_key(t, s, by_due);
    if s.len() == 0 {
        assert(r =~= seq![t]);
        assert(r.to_multiset() =~= s.to_multiset().insert(t)) by {
            assert(r =~= Seq::empty().push(t));
            assert(s.to_multiset() =~= Multiset::empty());
        }
    } else if lex_le(task_key(s[0], by_due), task_key(t, by_due)) {
        let d = s.drop_first();
        assert forall|a: int, b: int| 0 <= a < b < d.len() implies lex_le(
            task_key(#[trigger] d[a], by_due),
            task_key(#[trigger] d[b], by_due),
        ) by {
            assert(d[a] == s[a + 1] && d[b] == s[b + 1]);
        }
        lemma_insert_by_key_props(t, d, by_due);
        let rd = insert_by_key(t, d, by_due);
        assert(r =~= seq![s[0]] + rd);
        // contents of the inserted tail trace back to the whole
        assert forall|idx: int| 0 <= idx < r.len() implies #[trigger] r[idx] == t || s.contains(
            r[idx],
        ) by {
            if idx == 0 {
                assert(s.contains(s[0])) by {
                    assert(s[0] == s[0]);
                }
            } else {
                assert(r[idx] == rd[idx - 1]);
                if rd[idx - 1] != t {
                    assert(d.contains(rd[idx - 1]));
                    let w = choose|w: int| 0 <= w < d.len() && d[w] == rd[idx - 1];
                    assert(s[w + 1] == rd[idx - 1]);
                }
            }
        }
        // the head key stays at or below every later key
        assert forall|a: int, b: int| 0 <= a < b < r.len() implies lex_le(
            task_key(#[trigger] r[a], by_due),
            task_key(#[trigger] r[b], by_due),
        ) by {
            if a == 0 {
                assert(r[b] == rd[b - 1]);
                if rd[b - 1] == t {
                    assert(lex_le(task_key(s[0], by_due), task_key(t, by_due)));
                } else {
                    assert(d.contains(rd[b - 1]));
                    let w = choose|w: int| 0 <= w < d.len() && d[w] == rd[b - 1];
                    assert(d[w] == s[w + 1]);
                    assert(lex_le(task_key(s[0], by_due), task_key(s[w + 1], by_due)));
                }
            } else {
                assert(r[a] == rd[a - 1] && r[b] == rd[b - 1]);
            }
        }
        assert(r.to_multiset() =~= s.to_multiset().insert(t)) by {
            assert(seq![s[0]].to_multiset() =~= Multiset::empty().insert(s[0]));
            vstd::seq_lib::lemma_multiset_commutative(seq![s[0]], rd);
            assert(s =~= seq![s[0]] + d);
            vstd::seq_lib::lemma_multiset_commutative(seq![s[0]], d);
        }
    } else {
        assert(r =~= seq![t] + s);
        lemma_lex_le_total(task_key(s[0], by_due), task_key(t, by_due));
        assert forall|a: int, b: int| 0 <= a < b < r.len() implies lex_le(
            task_key(#[trigger] r[a], by_due),
            task_key(#[trigger] r[b], by_due),
        ) by {
            if a == 0 {
                assert(r[b] == s[b - 1]);
                if b > 1 {
                    lemma_lex_le_trans(
                        task_key(t, by_due),
                        task_key(s[0], by_due),
                        task_key(s[b - 1], by_due),
                    );
                }
            } else {
                assert(r[a] == s[a - 1] && r[b] == s[b - 1]);
            }
        }
        assert(r.to_multiset() =~= s.to_multiset().insert(t)) by {
            assert(seq![t].to_multiset() =~= Multiset::empty().insert(t));
            vstd::seq_lib::lemma_multiset_commutative(seq![t], s);
        }
        assert forall|idx: int| 0 <= idx < r.len() implies #[trigger] r[idx] == t || s.contains(
            r[idx],
        ) by {
            if idx > 0 {
                assert(r[idx] == s[idx - 1]);
            }
        }
    }
}

/// The stable sort is sorted and holds exactly the given tasks.
pub proof fn lemma_sort_by_key_props(s: Seq<TaskView>, by_due: bool)
    ensures
        sort_by_key(s, by_due).len() == s.len(),
        tasks_sorted(sort_by_key(s, by_due), by_due),
        sort_by_key(s, by_due).to_multiset() == s.to_multiset(),
    decreases s.len(),
{
    broadcast use group_to_multiset_ensures;
    broadcast use vstd::multiset::group_multiset_axioms;

    if s.len() > 0 {
        lemma_sort_by_key_props(s.drop_last(), by_due);
        lemma_insert_by_key_props(s.last(), sort_by_key(s.drop_last(), by_due), by_due);
        assert(s =~= s.drop_last().push(s.last()));
        assert(s.drop_last().push(s.last()).to_multiset() == s.drop_last().to_multiset().insert(
            s.last(),
        ));
    }
}

/// Whether `a`'s sort key is at or below `b`'s.
fn key_le(a: &Task, b: &Task, by_due: bool) -> (r: bool)
    ensures
        r == lex_le(task_key(a@, by_due), task_key(b@, by_due)),
{
    if by_due {
        str_le(&a.next_due_date, &b.next_due_date)
    } else {
        str_le(&a.name, &b.name)
    }
}

/// Sort tasks by the chosen key, smallest first, stably: the result is
/// exactly the stable sort of the input, so tasks with equal keys keep
/// their given order.
fn sort_tasks(v: Vec<Task>, by_due: bool) -> (r: Vec<Task>)
    ensures
        tasks_view(r@) == sort_by_key(tasks_view(v@), by_due),
        tasks_sorted(tasks_view(r@), by_due),
        tasks_view(r@).to_multiset() == tasks_view(v@).to_multiset(),
{
    let n = v.len();
    let mut out: Vec<Task> = Vec::new();
    let mut i: usize = 0;
    proof {
        assert(tasks_view(v@).take(0) =~= Seq::<TaskView>::empty());
    }
    while i < n
        invariant
            0 <= i <= n,
            n == v@.len(),
            tasks_view(out@) == sort_by_key(tasks_view(v@).take(i as int), by_due),
        decreases n - i,
    {
        let t = v[i].clone();
        let mut j: usize = 0;
        while j < out.len() && key_le(&out[j], &t, by_due)
            invariant
                0 <= j <= out@.len(),
                t@ == v@[i as int]@,
                forall|idx: int|
                    0 <= idx < j ==> lex_le(
                        task_key(#[trigger] tasks_view(out@)[idx], by_due),
                        task_key(t@, by_due),
                    ),
            decreases out@.len() - j,
        {
            j += 1;
        }
        let ghost old_out = out@;
        out.insert(j, t);
        proof {
            lemma_insert_by_key_at(v@[i as int]@, tasks_view(old_out), j as int, by_due);
            assert(tasks_view(out@) =~= tasks_view(old_out).take(j as int) + seq![v@[i as int]@]
                + tasks_view(old_out).skip(j as int));
            assert(tasks_view(out@) == insert_by_key(
                v@[i as int]@,
                tasks_view(old_out),
                by_due,
            ));
            assert(tasks_view(v@).take(i + 1 as int).drop_last() =~= tasks_view(v@).take(i as int));
            assert(tasks_view(v@).take(i + 1 as int).last() == v@[i as int]@);
        }
        i += 1;
    }
    proof {
        assert(tasks_view(v@).take(n as int) =~= tasks_view(v@));
        lemma_sort_by_key_props(tasks_view(v@), by_due);
    }
    out
}

/// Sort completion records by completion time, newest first.
fn sort_records_desc(v: Vec<CompletionRecord>) -> (r: Vec<CompletionRecord>)
    ensures
        records_view(r@).to_multiset() == records_view(v@).to_multiset(),
        records_sorted_desc(records_view(r@)),
{
    broadcast use group_to_multiset_ensures;
    broadcast use vstd::multiset::group_multiset_axioms;

    let mut src = v;
    let mut out: Vec<CompletionRecord> = Vec::new();
    let ghost orig = records_view(src@).to_multiset();
    proof {
        assert(records_view(out@).to_multiset().add(records_view(src@).to_multiset()) =~= orig);
    }
    while src.len() > 0
        invariant
            records_view(out@).to_multiset().add(records_view(src@).to_multiset()) == orig,
            records_sorted_desc(records_view(out@)),
            forall|k: int, i: int|
                0 <= k < out@.len() && 0 <= i < src@.len() ==> lex_le(
                    (#[trigger] records_view(src@)[i]).completed_at,
                    (#[trigger] records_view(out@)[k]).completed_at,
                ),
        decreases src@.len(),
    {
        // find the index of a maximal completion time
        let mut m: usize = 0;
        let mut i: usize = 1;
        proof {
            lemma_lex_le_refl(records_view(src@)[0].completed_at);
        }
        while i < src.len()
            invariant
                0 <= m < src@.len(),
                m < i <= src@.len(),
                forall|j: int|
                    0 <= j < i ==> lex_le(
                        (#[trigger] records_view(src@)[j]).completed_at,
                        records_view(src@)[m as int].completed_at,
                    ),
            decreases src@.len() - i,
        {
            if str_le(&src[m].completed_at, &src[i].completed_at) {
                proof {
                    let sv = records_view(src@);
                    assert forall|j: int| 0 <= j < i + 1 implies lex_le(
                        sv[j].completed_at,
                        sv[i as int].completed_at,
                    ) by {
                        if j < i {
                            lemma_lex_le_trans(
                                sv[j].completed_at,
                                sv[m as int].completed_at,
                                sv[i as int].completed_at,
                            );
                        } else {
                            lemma_lex_le_refl(sv[i as int].completed_at);
                        }
                    }
                }
                m = i;
            } else {
                proof {
                    lemma_lex_le_total(
                        records_view(src@)[m as int].completed_at,
                        records_view(src@)[i as int].completed_at,
                    );
                }
            }
            i += 1;
        }
        let ghost old_src = src@;
        let ghost old_out = out@;
        let t = src.remove(m);
        out.push(t);
        proof {
            broadcast use group_to_multiset_ensures;
            broadcast use vstd::multiset::group_multiset_axioms;

            let x = old_src[m as int]@;
            lemma_records_view_remove(old_src, m as int);
            assert(records_view(src@) =~= records_view(old_src).remove(m as int));
            assert(records_view(old_src)[m as int] == x);
            assert(records_view(old_src).remove(m as int).to_multiset() == records_view(
                old_src,
            ).to_multiset().remove(x));
            assert(records_view(old_src).contains(x));
            assert(records_view(old_src).to_multiset().count(x) > 0);
            assert(records_view(out@) =~= records_view(old_out).push(x));
            assert(records_view(out@).to_multiset() == records_view(
                old_out,
            ).to_multiset().insert(x));
            assert(records_view(out@).to_multiset().add(records_view(src@).to_multiset())
                =~= orig);
            let outv = records_view(out@);
            let srcv = records_view(src@);
            let oldsv = records_view(old_src);
            assert forall|k: int, i2: int|
                0 <= k < outv.len() && 0 <= i2 < srcv.len() implies lex_le(
                (#[trigger] srcv[i2]).completed_at,
                (#[trigger] outv[k]).completed_at,
            ) by {
                assert(srcv[i2] == if i2 < m as int {
                    oldsv[i2]
                } else {
                    oldsv[i2 + 1]
                });
                if k < outv.len() - 1 {
                    assert(outv[k] == records_view(old_out)[k]);
                } else {
                    assert(outv[k] == x);
                }
            }
            assert(records_sorted_desc(outv)) by {
                assert forall|a: int, b: int| 0 <= a < b < outv.len() implies lex_le(
                    (#[trigger] outv[b]).completed_at,
                    (#[trigger] outv[a]).completed_at,
                ) by {
                    if b < outv.len() - 1 {
                        assert(outv[a] == records_view(old_out)[a]);
                        assert(outv[b] == records_view(old_out)[b]);
                    } else {
                        assert(outv[a] == records_view(old_out)[a]);
                        assert(outv[b] == x);
                        assert(oldsv[m as int] == x);
                    }
                }
            }
        }
    }
    proof {
        assert(records_view(src@).to_multiset() =~= Multiset::empty());
        assert(records_view(out@).to_multiset() =~= orig);
    }
    out
}

/// Calculate the next due date after a completion: the recurrence stepped
/// from the given due-date day count, as an ISO string. `None` when the
/// stepped day count leaves the representable calendar.
pub fn calculate_next_due(from_days: i32, rt: RecurrenceType, value: u32) -> (r: Option<String>)
    ensures
        ({
            let nd = next_due_days(from_days as int, rt, value as int);
            &&& (r is Some <==> (i32::MIN <= nd <= i32::MAX && iso_of_days(nd) is Some))
            &&& (r matches Some(s) ==> Some(s@) == iso_of_days(nd))
        }),
{
    let delta: i64 = match rt {
        RecurrenceType::Daily => value as i64,
        RecurrenceType::Weekly => 7 * value as i64,
        RecurrenceType::Monthly => 30 * value as i64,
        RecurrenceType::Yearly => 365 * value as i64,
    };
    let nd: i64 = from_days as i64 + delta;
    if nd < i32::MIN as i64 || nd > i32::MAX as i64 {
        return None;
    }
    format_iso_date(nd as i32)
}

impl Storage {
    /// Fresh, empty storage.
    pub fn new() -> (r: Self)
        ensures
            r.task_store.tasks@.len() == 0,
            r.task_store.next_id == 0,
            r.history_store.records@.len() == 0,
            r.history_store.next_id == 0,
    {
        Storage {
            task_store: TaskStore { tasks: Vec::new(), next_id: 0 },
            history_store: HistoryStore { records: Vec::new(), next_id: 0 },
        }
    }

    /// All tasks, sorted by due date, or by name when `sort_by_due` is
    /// off; the sort is stable, so tasks with equal keys keep their
    /// store order.
    pub fn get_all_tasks(&self, sort_by_due: bool) -> (r: Vec<Task>)
        ensures
            tasks_view(r@) == sort_by_key(tasks_view(self.task_store.tasks@), sort_by_due),
            tasks_view(r@).to_multiset() == tasks_view(self.task_store.tasks@).to_multiset(),
            tasks_sorted(tasks_view(r@), sort_by_due),
    {
        sort_tasks(clone_tasks(&self.task_store.tasks), sort_by_due)
    }

    /// The first task with the given id.
    pub fn get_task(&self, task_id: u32) -> (r: Option<&Task>)
        ensures
            r is Some <==> find_task(self.task_store.tasks@, task_id as int) is Some,
            r matches Some(t) ==> find_task(self.task_store.tasks@, task_id as int) matches Some(
                i,
            ) && t@ == tasks_view(self.task_store.tasks@)[i],
    {
        let n = self.task_store.tasks.len();
        let mut i: usize = 0;
        while i < n
            invariant
                0 <= i <= n,
                n == self.task_store.tasks@.len(),
                forall|j: int| 0 <= j < i ==> (#[trigger] self.task_store.tasks@[j])@.id
                    != task_id as int,
            decreases n - i,
        {
            if self.task_store.tasks[i].id == task_id {
                proof {
                    lemma_find_task_at(self.task_store.tasks@, task_id as int, i as int);
                }
                return Some(&self.task_store.tasks[i]);
            }
            i += 1;
        }
        proof {
            lemma_find_task_at(self.task_store.tasks@, task_id as int, n as int);
        }
        None
    }

    /// Create a new task with a fresh id and append it to the store.
    pub fn create_task(
        &mut self,
        name: String,
        recurrence_type: RecurrenceType,
        recurrence_value: u32,
        next_due_date: String,
        now_iso: &str,
    ) -> (r: &Task)
        requires
            old(self).task_store.next_id < u32::MAX,
        ensures
            final(self).task_store.next_id == old(self).task_store.next_id + 1,
            tasks_view(final(self).task_store.tasks@) == tasks_view(
                old(self).task_store.tasks@,
            ).push(
                TaskView {
                    id: old(self).task_store.next_id as int,
                    name: name@,
                    recurrence_type,
                    recurrence_value: recurrence_value as int,
                    next_due_date: next_due_date@,
                    created_at: now_iso@,
                    updated_at: now_iso@,
                },
            ),
            final(self).history_store.records@ == old(self).history_store.records@,
            final(self).history_store.next_id == old(self).history_store.next_id,
            r@ == tasks_view(final(self).task_store.tasks@).last(),
    {
        let id = self.task_store.next_id;
        self.task_store.next_id = id + 1;
        let task = Task {
            id,
            name,
            recurrence_type,
            recurrence_value,
            next_due_date,
            created_at: String::from_str(now_iso),
            updated_at: String::from_str(now_iso),
        };
        self.task_store.tasks.push(task);
        proof {
            assert(tasks_view(self.task_store.tasks@) =~= tasks_view(
                old(self).task_store.tasks@,
            ).push(self.task_store.tasks@.last()@));
        }
        let n = self.task_store.tasks.len();
        &self.task_store.tasks[n - 1]
    }

    /// Update an existing task in place: each given field replaces the
    /// old one, and the update stamp is refreshed. `None` when no task
    /// has the id.
    pub fn update_task(
        &mut self,
        task_id: u32,
        name: Option<String>,
        recurrence_type: Option<RecurrenceType>,
        recurrence_value: Option<u32>,
        next_due_date: Option<String>,
        now_iso: &str,
    ) -> (r: Option<&Task>)
        ensures
            final(self).task_store.next_id == old(self).task_store.next_id,
            final(self).history_store.records@ == old(self).history_store.records@,
            final(self).history_store.next_id == old(self).history_store.next_id,
            r is Some <==> find_task(old(self).task_store.tasks@, task_id as int) is Some,
            find_task(old(self).task_store.tasks@, task_id as int) is None
                ==> final(self).task_store.tasks@ == old(self).task_store.tasks@,
            find_task(old(self).task_store.tasks@, task_id as int) matches Some(i) ==> {
                let old_t = tasks_view(old(self).task_store.tasks@)[i];
                let new_t = TaskView {
                    name: match name {
                        Some(n) => n@,
                        None => old_t.name,
                    },
                    recurrence_type: match recurrence_type {
                        Some(rt) => rt,
                        None => old_t.recurrence_type,
                    },
                    recurrence_value: match recurrence_value {
                        Some(rv) => rv as int,
                        None => old_t.recurrence_value,
                    },
                    next_due_date: match next_due_date {
                        Some(d) => d@,
                        None => old_t.next_due_date,
                    },
                    updated_at: now_iso@,
                    ..old_t
                };
                &&& tasks_view(final(self).task_store.tasks@) == tasks_view(
                    old(self).task_store.tasks@,
                ).update(i, new_t)
                &&& (r matches Some(t) && t@ == new_t)
            },
    {
        let n = self.task_store.tasks.len();
        let mut i: usize = 0;
        while i < n
            invariant
                0 <= i <= n,
                n == self.task_store.tasks@.len(),
                self.task_store.tasks@ == old(self).task_store.tasks@,
                self.task_store.next_id == old(self).task_store.next_id,
                self.history_store.records@ == old(self).history_store.records@,
                self.history_store.next_id == old(self).history_store.next_id,
                forall|j: int| 0 <= j < i ==> (#[trigger] self.task_store.tasks@[j])@.id
                    != task_id as int,
            decreases n - i,
        {
            if self.task_store.tasks[i].id == task_id {
                proof {
                    lemma_find_task_at(self.task_store.tasks@, task_id as int, i as int);
                }
                let mut t = self.task_store.tasks[i].clone();
                match name {
                    Some(nm) => {
                        t.name = nm;
                    },
                    None => {},
                }
                match recurrence_type {
                    Some(rt) => {
                        t.recurrence_type = rt;
                    },
                    None => {},
                }
                match recurrence_value {
                    Some(rv) => {
                        t.recurrence_value = rv;
                    },
                    None => {},
                }
                match next_due_date {
                    Some(d) => {
                        t.next_due_date = d;
                    },
                    None => {},
                }
                t.updated_at = String::from_str(now_iso);
                let _replaced = self.task_store.tasks.remove(i);
                self.task_store.tasks.insert(i, t);
                proof {
                    assert(self.task_store.tasks@ =~= old(self).task_store.tasks@.update(
                        i as int,
                        self.task_store.tasks@[i as int],
                    ));
                    assert(tasks_view(self.task_store.tasks@) =~= tasks_view(
                        old(self).task_store.tasks@,
                    ).update(i as int, self.task_store.tasks@[i as int]@));
                }
                return Some(&self.task_store.tasks[i]);
            }
            i += 1;
        }
        proof {
            lemma_find_task_at(self.task_store.tasks@, task_id as int, n as int);
        }
        None
    }

    /// Delete a task and its whole history. Answers whether a task was
    /// deleted; when none has the id, nothing changes.
    pub fn delete_task(&mut self, task_id: u32) -> (r: bool)
        ensures
            r == (find_task(old(self).task_store.tasks@, task_id as int) is Some),
            final(self).task_store.next_id == old(self).task_store.next_id,
            final(self).history_store.next_id == old(self).history_store.next_id,
            tasks_view(final(self).task_store.tasks@) == tasks_without(
                old(self).task_store.tasks@,
                task_id as int,
            ),
            r ==> records_view(final(self).history_store.records@) == records_without(
                old(self).history_store.records@,
                task_id as int,
            ),
            !r ==> final(self).history_store.records@ == old(self).history_store.records@,
    {
        let n = self.task_store.tasks.len();
        let mut kept: Vec<Task> = Vec::new();
        let mut found = false;
        let mut i: usize = 0;
        while i < n
            invariant
                0 <= i <= n,
                n == old(self).task_store.tasks@.len(),
                self.task_store.tasks@ == old(self).task_store.tasks@,
                self.task_store.next_id == old(self).task_store.next_id,
                self.history_store.records@ == old(self).history_store.records@,
                self.history_store.next_id == old(self).history_store.next_id,
                tasks_view(kept@) == tasks_without(
                    old(self).task_store.tasks@.take(i as int),
                    task_id as int,
                ),
                found == !(find_task(
                    old(self).task_store.tasks@.take(i as int),
                    task_id as int,
                ) is None),
            decreases n - i,
        {
            let ghost pre = old(self).task_store.tasks@.take(i as int);
            let t = &self.task_store.tasks[i];
            proof {
                assert(old(self).task_store.tasks@.take(i + 1 as int) =~= pre.push(
                    old(self).task_store.tasks@[i as int],
                ));
                lemma_tasks_without_push(pre, task_id as int, old(self).task_store.tasks@[i as int]);
                lemma_find_task_push(pre, task_id as int, old(self).task_store.tasks@[i as int]);
            }
            if t.id == task_id {
                found = true;
            } else {
                let copy = t.clone();
                kept.push(copy);
                proof {
                    assert(tasks_view(kept@) =~= tasks_without(
                        old(self).task_store.tasks@.take(i + 1 as int),
                        task_id as int,
                    ));
                }
            }
            i += 1;
        }
        proof {
            assert(old(self).task_store.tasks@.take(n as int) =~= old(self).task_store.tasks@);
        }
        self.task_store.tasks = kept;
        if found {
            let hn = self.history_store.records.len();
            let mut kept_h: Vec<CompletionRecord> = Vec::new();
            let mut j: usize = 0;
            while j < hn
                invariant
                    0 <= j <= hn,
                    hn == old(self).history_store.records@.len(),
                    self.history_store.records@ == old(self).history_store.records@,
                    records_view(kept_h@) == records_without(
                        old(self).history_store.records@.take(j as int),
                        task_id as int,
                    ),
                decreases hn - j,
            {
                let ghost pre = old(self).history_store.records@.take(j as int);
                let rec = &self.history_store.records[j];
                proof {
                    assert(old(self).history_store.records@.take(j + 1 as int) =~= pre.push(
                        old(self).history_store.records@[j as int],
                    ));
                    lemma_records_without_push(
                        pre,
                        task_id as int,
                        old(self).history_store.records@[j as int],
                    );
                }
                if rec.task_id != task_id {
                    let copy = rec.clone();
                    kept_h.push(copy);
                }
                proof {
                    assert(records_view(kept_h@) =~= records_without(
                        old(self).history_store.records@.take(j + 1 as int),
                        task_id as int,
                    ));
                }
                j += 1;
            }
            proof {
                assert(old(self).history_store.records@.take(hn as int) =~= old(self).history_store.records@);
            }
            self.history_store.records = kept_h;
        }
        found
    }

    /// Completion history of a task, newest first, capped at 50 entries.
    /// Under the cap this is exactly the task's records, ordered; over
    /// it, 50 of them.
    pub fn get_task_history(&self, task_id: u32) -> (r: Vec<CompletionRecord>)
        ensures
            records_sorted_desc(records_view(r@)),
            records_for(self.history_store.records@, task_id as int).len() <= 50
                ==> records_view(r@).to_multiset() == records_for(
                self.history_store.records@,
                task_id as int,
            ).to_multiset(),
            records_view(r@).len() == if records_for(
                self.history_store.records@,
                task_id as int,
            ).len() <= 50 {
                records_for(self.history_store.records@, task_id as int).len()
            } else {
                50
            },
            records_view(r@).to_multiset().subset_of(
                records_for(self.history_store.records@, task_id as int).to_multiset(),
            ),
            // over the cap, only the oldest records are dropped: every
            // record left out is at most every record kept
            forall|v: RecordView, i: int|
                #![trigger records_view(r@).to_multiset().count(v), records_view(r@)[i]]
                records_view(r@).to_multiset().count(v) < records_for(
                    self.history_store.records@,
                    task_id as int,
                ).to_multiset().count(v) && 0 <= i < r@.len() ==> lex_le(
                    v.completed_at,
                    records_view(r@)[i].completed_at,
                ),
    {
        broadcast use group_to_multiset_ensures;

        let n = self.history_store.records.len();
        let mut matching: Vec<CompletionRecord> = Vec::new();
        let mut i: usize = 0;
        while i < n
            invariant
                0 <= i <= n,
                n == self.history_store.records@.len(),
                records_view(matching@) == records_for(
                    self.history_store.records@.take(i as int),
                    task_id as int,
                ),
            decreases n - i,
        {
            let ghost pre = self.history_store.records@.take(i as int);
            let rec = &self.history_store.records[i];
            proof {
                assert(self.history_store.records@.take(i + 1 as int) =~= pre.push(
                    self.history_store.records@[i as int],
                ));
                lemma_records_for_push(
                    pre,
                    task_id as int,
                    self.history_store.records@[i as int],
                );
            }
            if rec.task_id == task_id {
                let copy = rec.clone();
                matching.push(copy);
            }
            proof {
                assert(records_view(matching@) =~= records_for(
                    self.history_store.records@.take(i + 1 as int),
                    task_id as int,
                ));
            }
            i += 1;
        }
        proof {
            assert(self.history_store.records@.take(n as int) =~= self.history_store.records@);
        }
        let ghost wanted = records_for(self.history_store.records@, task_id as int);
        let mut sorted = sort_records_desc(matching);
        let ghost full = records_view(sorted@);
        sorted.truncate(50);
        proof {
            broadcast use vstd::multiset::group_multiset_axioms;

            assert(records_view(matching@) == wanted);
            assert(full.to_multiset() == wanted.to_multiset());
            assert(full.to_multiset().len() == full.len());
            assert(wanted.to_multiset().len() == wanted.len());
            assert(full.len() == wanted.len());
            assert(records_view(sorted@) =~= full.take(if full.len() <= 50 {
                full.len() as int
            } else {
                50
            }));
            let keep = records_view(sorted@);
            let rest = full.skip(keep.len() as int);
            assert(full =~= keep + rest);
            vstd::seq_lib::lemma_multiset_commutative(keep, rest);
            assert(keep.to_multiset().add(rest.to_multiset()) == full.to_multiset());
            if full.len() <= 50 {
                assert(keep =~= full);
            }
            assert forall|a: RecordView| keep.to_multiset().count(a) <= wanted.to_multiset().count(
                a,
            ) by {
                assert(full.to_multiset().count(a) == keep.to_multiset().count(a)
                    + rest.to_multiset().count(a));
            }
            assert(keep.to_multiset().subset_of(wanted.to_multiset()));
            assert forall|v: RecordView, i: int|
                keep.to_multiset().count(v) < wanted.to_multiset().count(v) && 0 <= i
                    < keep.len() implies lex_le(v.completed_at, keep[i].completed_at) by {
                assert(full.to_multiset().count(v) == keep.to_multiset().count(v)
                    + rest.to_multiset().count(v));
                assert(rest.to_multiset().count(v) > 0);
                assert(rest.contains(v));
                let jr = choose|jr: int| 0 <= jr < rest.len() && rest[jr] == v;
                assert(full[keep.len() + jr] == v);
                assert(keep[i] == full[i]);
                assert(lex_le(full[keep.len() + jr].completed_at, full[i].completed_at));
            }
        }
        sorted
    }

    /// The most recent completion of a task, if it has any.
    pub fn get_last_completion(&self, task_id: u32) -> (r: Option<&CompletionRecord>)
        ensures
            match r {
                Some(rec) => last_completion(
                    records_view(self.history_store.records@),
                    task_id as int,
                ) == Some(rec@),
                None => last_completion(
                    records_view(self.history_store.records@),
                    task_id as int,
                ) is None,
            },
    {
        let n = self.history_store.records.len();
        let mut best: Option<usize> = None;
        let mut i: usize = 0;
        while i < n
            invariant
                0 <= i <= n,
                n == self.history_store.records@.len(),
                match best {
                    Some(b) => b < i && last_completion(
                        records_view(self.history_store.records@).take(i as int),
                        task_id as int,
                    ) == Some(records_view(self.history_store.records@)[b as int]),
                    None => last_completion(
                        records_view(self.history_store.records@).take(i as int),
                        task_id as int,
                    ) is None,
                },
            decreases n - i,
        {
            let ghost rv = records_view(self.history_store.records@);
            proof {
                assert(rv.take(i + 1 as int).drop_last() =~= rv.take(i as int));
                assert(rv.take(i + 1 as int).last() == rv[i as int]);
            }
            let rec = &self.history_store.records[i];
            if rec.task_id == task_id {
                match best {
                    Some(b) => {
                        let better = str_le(
                            &self.history_store.records[b].completed_at,
                            &rec.completed_at,
                        );
                        if better {
                            best = Some(i);
                        }
                    },
                    None => {
                        best = Some(i);
                    },
                }
            }
            i += 1;
        }
        proof {
            assert(records_view(self.history_store.records@).take(n as int) =~= records_view(
                self.history_store.records@,
            ));
        }
        match best {
            Some(b) => Some(&self.history_store.records[b]),
            None => None,
        }
    }

    /// Task counts by urgency category for the dashboard. `week` counts
    /// everything due in at most 7 days, overdue and due-today tasks
    /// among them; `total` counts all tasks.
    pub fn get_task_counts(&self, today: i32) -> (r: TaskCounts)
        requires
            -96_000_000 <= today <= 96_000_000,
            self.task_store.tasks@.len() <= u32::MAX,
        ensures
            r.overdue as int == count_overdue(tasks_view(self.task_store.tasks@), today as int),
            r.today as int == count_due_today(tasks_view(self.task_store.tasks@), today as int),
            r.week as int == count_week(tasks_view(self.task_store.tasks@), today as int),
            r.total as int == self.task_store.tasks@.len(),
    {
        let n = self.task_store.tasks.len();
        let mut overdue: u32 = 0;
        let mut due_today: u32 = 0;
        let mut week: u32 = 0;
        let mut i: usize = 0;
        while i < n
            invariant
                0 <= i <= n,
                n == self.task_store.tasks@.len(),
                n <= u32::MAX,
                -96_000_000 <= today <= 96_000_000,
                overdue as int == count_overdue(
                    tasks_view(self.task_store.tasks@).take(i as int),
                    today as int,
                ),
                due_today as int == count_due_today(
                    tasks_view(self.task_store.tasks@).take(i as int),
                    today as int,
                ),
                week as int == count_week(
                    tasks_view(self.task_store.tasks@).take(i as int),
                    today as int,
                ),
                overdue <= i && due_today <= i && week <= i,
            decreases n - i,
        {
            let ghost tv = tasks_view(self.task_store.tasks@);
            proof {
                assert(tv.take(i + 1 as int) =~= tv.take(i as int).push(tv[i as int]));
                lemma_counts_push(tv.take(i as int), today as int, tv[i as int]);
            }
            let days = self.task_store.tasks[i].days_until_due(today);
            if days < 0 {
                overdue = overdue + 1;
                week = week + 1;
            } else if days == 0 {
                due_today = due_today + 1;
                week = week + 1;
            } else if days <= 7 {
                week = week + 1;
            }
            i += 1;
        }
        proof {
            assert(tasks_view(self.task_store.tasks@).take(n as int) =~= tasks_view(
                self.task_store.tasks@,
            ));
        }
        TaskCounts { overdue, today: due_today, week, total: n as u32 }
    }

    /// Tasks in an urgency category, sorted by due date. `"overdue"`,
    /// `"today"` and `"week"` select by days until due; any other
    /// category returns all tasks. The result is exactly the stable
    /// due-date sort of the store-order filtered list, so it keeps the
    /// relative order that the unfiltered sorted list gives equal keys.
    pub fn get_tasks_by_urgency(&self, urgency: &str, today: i32) -> (r: Vec<Task>)
        requires
            -96_000_000 <= today <= 96_000_000,
        ensures
            tasks_view(r@) == sort_by_key(
                tasks_matching(self.task_store.tasks@, urgency@, today as int),
                true,
            ),
            tasks_view(r@).to_multiset() == tasks_matching(
                self.task_store.tasks@,
                urgency@,
                today as int,
            ).to_multiset(),
            tasks_sorted(tasks_view(r@), true),
    {
        let n = self.task_store.tasks.len();
        let is_overdue = str_eq(urgency, "overdue");
        let is_today = str_eq(urgency, "today");
        let is_week = str_eq(urgency, "week");
        let mut matching: Vec<Task> = Vec::new();
        let mut i: usize = 0;
        while i < n
            invariant
                0 <= i <= n,
                n == self.task_store.tasks@.len(),
                -96_000_000 <= today <= 96_000_000,
                is_overdue == (urgency@ == "overdue"@),
                is_today == (urgency@ == "today"@),
                is_week == (urgency@ == "week"@),
                tasks_view(matching@) == tasks_matching(
                    self.task_store.tasks@.take(i as int),
                    urgency@,
                    today as int,
                ),
            decreases n - i,
        {
            let ghost pre = self.task_store.tasks@.take(i as int);
            proof {
                assert(self.task_store.tasks@.take(i + 1 as int) =~= pre.push(
                    self.task_store.tasks@[i as int],
                ));
                lemma_tasks_matching_push(
                    pre,
                    urgency@,
                    today as int,
                    self.task_store.tasks@[i as int],
                );
            }
            let t = &self.task_store.tasks[i];
            let days = t.days_until_due(today);
            let keep = if is_overdue {
                days < 0
            } else if is_today {
                days == 0
            } else if is_week {
                days <= 7
            } else {
                true
            };
            if keep {
                let copy = t.clone();
                matching.push(copy);
            }
            proof {
                assert(tasks_view(matching@) =~= tasks_matching(
                    self.task_store.tasks@.take(i + 1 as int),
                    urgency@,
                    today as int,
                ));
            }
            i += 1;
        }
        proof {
            assert(self.task_store.tasks@.take(n as int) =~= self.task_store.tasks@);
        }
        sort_tasks(matching, true)
    }

    /// Mark a task as completed: record the completion (with days since
    /// the previous one, when that is known) and step the due date along
    /// the task's recurrence from the previous due date. Answers whether
    /// the task exists; when it does not, nothing changes.
    pub fn complete_task(&mut self, task_id: u32, now_iso: &str, today: i32) -> (r: bool)
        requires
            old(self).history_store.next_id < u32::MAX,
            -96_000_000 <= today <= 96_000_000,
        ensures
            r == (find_task(old(self).task_store.tasks@, task_id as int) is Some),
            !r ==> *final(self) == *old(self),
            r ==> final(self).history_store.next_id == old(self).history_store.next_id + 1,
            r ==> records_view(final(self).history_store.records@) == records_view(
                old(self).history_store.records@,
            ).push(
                RecordView {
                    id: old(self).history_store.next_id as int,
                    task_id: task_id as int,
                    completed_at: now_iso@,
                    days_since_last: spec_days_since_last(
                        records_view(old(self).history_store.records@),
                        task_id as int,
                        today as int,
                    ),
                },
            ),
            final(self).task_store.next_id == old(self).task_store.next_id,
            find_task(old(self).task_store.tasks@, task_id as int) matches Some(i) ==> {
                let old_t = tasks_view(old(self).task_store.tasks@)[i];
                match iso_date_days(old_t.next_due_date) {
                    Some(due) => {
                        let nd = next_due_days(
                            due,
                            old_t.recurrence_type,
                            old_t.recurrence_value,
                        );
                        if i32::MIN <= nd <= i32::MAX {
                            match iso_of_days(nd) {
                                Some(s) => tasks_view(final(self).task_store.tasks@)
                                    == tasks_view(old(self).task_store.tasks@).update(
                                    i,
                                    TaskView {
                                        next_due_date: s,
                                        updated_at: now_iso@,
                                        ..old_t
                                    },
                                ),
                                None => final(self).task_store.tasks@
                                    == old(self).task_store.tasks@,
                            }
                        } else {
                            final(self).task_store.tasks@ == old(self).task_store.tasks@
                        }
                    },
                    None => final(self).task_store.tasks@ == old(self).task_store.tasks@,
                }
            },
    {
        let task = match self.get_task(task_id) {
            Some(t) => t.clone(),
            None => {
                return false;
            },
        };
        proof {
            lemma_find_task_props(self.task_store.tasks@, task_id as int);
        }

        // days since the previous completion, from its date part
        let days_since_last: Option<i32> = match self.get_last_completion(task_id) {
            Some(lc) => {
                let day_part = date_prefix(lc.completed_at.as_str());
                match parse_iso_date(day_part) {
                    Some(d) => Some(today - d),
                    None => None,
                }
            },
            None => None,
        };

        let record_id = self.history_store.next_id;
        self.history_store.next_id = record_id + 1;
        self.history_store.records.push(
            CompletionRecord {
                id: record_id,
                task_id,
                completed_at: String::from_str(now_iso),
                days_since_last,
            },
        );
        proof {
            assert(records_view(self.history_store.records@) =~= records_view(
                old(self).history_store.records@,
            ).push(self.history_store.records@.last()@));
        }

        // step the due date along the recurrence, from the previous one
        match parse_iso_date(&task.next_due_date) {
            Some(due) => {
                match calculate_next_due(due, task.recurrence_type, task.recurrence_value) {
                    Some(next_due) => {
                        let _ = self.update_task(
                            task_id,
                            None,
                            None,
                            None,
                            Some(next_due),
                            now_iso,
                        );
                    },
                    None => {},
                }
            },
            None => {},
        }
        true
    }
}

/// `find_task` over a sequence extended at the back: a match in front
/// wins; otherwise the new element decides.
proof fn lemma_find_task_push(s: Seq<Task>, id: int, x: Task)
    ensures
        find_task(s.push(x), id) == match find_task(s, id) {
            Some(i) => Some(i),
            None => if x@.id == id {
                Some(s.len() as int)
            } else {
                None
            },
        },
    decreases s.len(),
{
    if s.len() == 0 {
        assert(s.push(x)[0] == x);
        assert(s.push(x).drop_first() =~= s);
    } else {
        assert(s.push(x)[0] == s[0]);
        assert(s.push(x).drop_first() =~= s.drop_first().push(x));
        lemma_find_task_push(s.drop_first(), id, x);
    }
}

} // verus!
