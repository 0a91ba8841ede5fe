//! Scheduling rules: calendar normalisation, finish-to-start dependency
//! constraints on working days, and summary roll-up of child date ranges.
use crate::calendar::{
    add_working, count_working, is_working, next_working, next_working_day, working_days_inclusive,
    Date, MAX_DAY, lemma_add_working, lemma_next_working, lemma_max_day_is_working,
    lemma_weekday_succ, lemma_count_to_add_working,
};
use crate::model::{
    cleared, dates_of, first_index, is_child, is_first_index, numbers, same_but_dates,
    lemma_first_index_unique, lemma_first_index_none, TaskSnapshot,
};
use vstd::prelude::*;

verus! {

/// An edit of one task, addressed by its number.
///
/// `SetProgress` carries the bit pattern of the new completed fraction (an
/// `f32`), already limited to 0..=1 by the caller.
#[derive(Clone, Copy)]
pub enum EditCommand {
    Move { id: usize, start: Date, finish: Date },
    ResizeStart { id: usize, start: Date },
    ResizeEnd { id: usize, finish: Date },
    SetProgress { id: usize, progress_bits: u32 },
}

impl EditCommand {
    /// The number of the task the edit addresses.
    pub open spec fn target(self) -> usize {
        match self {
            EditCommand::Move { id, .. } => id,
            EditCommand::ResizeStart { id, .. } => id,
            EditCommand::ResizeEnd { id, .. } => id,
            EditCommand::SetProgress { id, .. } => id,
        }
    }

    /// The number of the task the edit addresses.
    pub fn id(&self) -> (r: usize)
        ensures
            r == self.target(),
    {
        match self {
            EditCommand::Move { id, .. } => *id,
            EditCommand::ResizeStart { id, .. } => *id,
            EditCommand::ResizeEnd { id, .. } => *id,
            EditCommand::SetProgress { id, .. } => *id,
        }
    }
}

/// The dates of a task after calendar normalisation: a finish before the
/// start moves to the start, and a milestone finishes on its start.
pub open spec fn normalized_dates(t: TaskSnapshot) -> (int, int) {
    if t.milestone || t.start@ > t.finish@ {
        (t.start@, t.start@)
    } else {
        (t.start@, t.finish@)
    }
}

/// Calendar-normalised dates of every task.
pub open spec fn calendar_dates(tasks: Seq<TaskSnapshot>) -> Seq<(int, int)> {
    Seq::new(tasks.len(), |i: int| normalized_dates(tasks[i]))
}

/// A task after an edit of its own fields (before any rescheduling):
/// moving sets both dates, resizing moves one end but not past the other,
/// and a milestone keeps finishing on its start.
pub open spec fn edit_task(t: TaskSnapshot, edit: EditCommand) -> TaskSnapshot {
    match edit {
        EditCommand::Move { start, finish, .. } => TaskSnapshot {
            start,
            finish: if t.milestone {
                start
            } else {
                finish
            },
            ..t
        },
        EditCommand::ResizeStart { start, .. } => {
            let s = if start@ <= t.finish@ {
                start
            } else {
                t.finish
            };
            TaskSnapshot {
                start: s,
                finish: if t.milestone {
                    s
                } else {
                    t.finish
                },
                ..t
            }
        },
        EditCommand::ResizeEnd { finish, .. } => {
            let f = if finish@ >= t.start@ {
                finish
            } else {
                t.start
            };
            TaskSnapshot {
                finish: if t.milestone {
                    t.start
                } else {
                    f
                },
                ..t
            }
        },
        EditCommand::SetProgress { progress_bits, .. } => TaskSnapshot { progress_bits, ..t },
    }
}

/// A task's display texts after an edit: cleared when `clear`, else kept.
pub open spec fn texts_after(t: TaskSnapshot, clear: bool) -> TaskSnapshot {
    if clear {
        cleared(t)
    } else {
        t
    }
}

/// All tasks after an edit: display texts cleared everywhere when `clear`
/// (and kept otherwise), and the first task with the target number edited.
pub open spec fn edited_texts(tasks: Seq<TaskSnapshot>, edit: EditCommand, clear: bool) -> Seq<
    TaskSnapshot,
> {
    Seq::new(
        tasks.len(),
        |i: int|
            if first_index(numbers(tasks), edit.target()) == Some(i) {
                edit_task(texts_after(tasks[i], clear), edit)
            } else {
                texts_after(tasks[i], clear)
            },
    )
}

/// All tasks after an edit: display texts cleared everywhere and the first
/// task with the target number edited.
pub open spec fn edited(tasks: Seq<TaskSnapshot>, edit: EditCommand) -> Seq<TaskSnapshot> {
    edited_texts(tasks, edit, true)
}

/// Clearing the display texts or not, an edit gives the same dates.
pub proof fn lemma_edited_dates_ignore_texts(tasks: Seq<TaskSnapshot>, edit: EditCommand, clear: bool)
    ensures
        calendar_dates(edited_texts(tasks, edit, clear)) == calendar_dates(edited(tasks, edit)),
{
    assert(calendar_dates(edited_texts(tasks, edit, clear)) =~= calendar_dates(edited(tasks, edit)));
}

/// The earliest start that the predecessors listed in `preds` allow, folded
/// over the list from `acc`: each predecessor found among the tasks requires
/// the first working day after its finish. `None` when a predecessor finishes
/// on the last representable day.
pub open spec fn pred_fold(nums: Seq<usize>, d: Seq<(int, int)>, preds: Seq<usize>, acc: int) -> Option<
    int,
>
    decreases preds.len(),
{
    if preds.len() == 0 {
        Some(acc)
    } else {
        match first_index(nums, preds[0]) {
            None => pred_fold(nums, d, preds.drop_first(), acc),
            Some(j) => if d[j].1 >= MAX_DAY {
                None
            } else {
                let c = next_working(d[j].1 + 1);
                pred_fold(nums, d, preds.drop_first(), if acc < c { c } else { acc })
            },
        }
    }
}

/// Constraint step for task `i`: a non-summary task that starts before its
/// predecessors allow moves to the allowed start and keeps its working
/// duration (at least one day); a milestone finishes on its new start.
/// `None` when the new dates would not be representable.
pub open spec fn enforce_step(shape: Seq<TaskSnapshot>, d: Seq<(int, int)>, i: int) -> Option<
    Seq<(int, int)>,
> {
    let t = shape[i];
    if t.summary {
        Some(d)
    } else {
        match pred_fold(numbers(shape), d, t.predecessors@, d[i].0) {
            None => None,
            Some(ms) => if d[i].0 < ms {
                if !(t.milestone || d[i].0 > d[i].1 || d[i].1 < MAX_DAY) {
                    None
                } else {
                    let dur = if t.milestone {
                        0
                    } else {
                        count_working(d[i].0, d[i].1) as int
                    };
                    let f = add_working(ms, if dur >= 1 { dur - 1 } else { 0 });
                    if f > MAX_DAY {
                        None
                    } else {
                        Some(d.update(i, (ms, if t.milestone { ms } else { f })))
                    }
                }
            } else {
                Some(d)
            },
        }
    }
}

/// Applies the constraint steps to tasks `i`, `i + 1`, ... in outline order.
pub open spec fn enforce_from(shape: Seq<TaskSnapshot>, d: Seq<(int, int)>, i: int) -> Option<
    Seq<(int, int)>,
>
    decreases shape.len() - i,
{
    if i < 0 || i >= shape.len() {
        Some(d)
    } else {
        match enforce_step(shape, d, i) {
            None => None,
            Some(d2) => enforce_from(shape, d2, i + 1),
        }
    }
}

/// Dependency enforcement over all tasks in outline order, starting from the
/// dates `d`; task numbers, predecessor lists, summary and milestone flags
/// come from `shape`.
pub open spec fn enforce_spec(shape: Seq<TaskSnapshot>, d: Seq<(int, int)>) -> Option<
    Seq<(int, int)>,
> {
    enforce_from(shape, d, 0)
}

/// A summary task with at least one direct child takes its dates from them.
pub open spec fn rolls_up(shape: Seq<TaskSnapshot>, i: int) -> bool {
    shape[i].summary && exists|c: int| is_child(shape, i, c)
}

/// Task `i` is rolled up: a summary with children starts at the earliest
/// child start and finishes at the latest child finish (children taken in
/// `after`); every other task keeps the dates in `before`.
pub open spec fn rolled_at(
    shape: Seq<TaskSnapshot>,
    before: Seq<(int, int)>,
    after: Seq<TaskSnapshot>,
    i: int,
) -> bool {
    if rolls_up(shape, i) {
        &&& exists|c: int| is_child(shape, i, c) && after[c].start@ == after[i].start@
        &&& forall|c: int| is_child(shape, i, c) ==> after[i].start@ <= #[trigger] after[c].start@
        &&& exists|c: int| is_child(shape, i, c) && after[c].finish@ == after[i].finish@
        &&& forall|c: int| is_child(shape, i, c) ==> #[trigger] after[c].finish@ <= after[i].finish@
    } else {
        after[i].start@ == before[i].0 && after[i].finish@ == before[i].1
    }
}

/// `after` is `shape` with the dates `before`, summaries rolled up.
pub open spec fn rolled_up(shape: Seq<TaskSnapshot>, before: Seq<(int, int)>, after: Seq<TaskSnapshot>) -> bool {
    &&& after.len() == shape.len()
    &&& before.len() == shape.len()
    &&& forall|i: int| 0 <= i < shape.len() ==> same_but_dates(shape[i], #[trigger] after[i])
    &&& forall|i: int| 0 <= i < shape.len() ==> rolled_at(shape, before, after, i)
}

/// The day-number view of a vector of date pairs.
pub open spec fn pair_days(v: Seq<(Date, Date)>) -> Seq<(int, int)> {
    Seq::new(v.len(), |i: int| (v[i].0@, v[i].1@))
}

/// Normalises every task's dates to the calendar rules.
pub fn normalize_calendar(tasks: &mut Vec<TaskSnapshot>)
    ensures
        final(tasks).len() == old(tasks).len(),
        forall|i: int| 0 <= i < old(tasks).len() ==> same_but_dates(old(tasks)@[i], #[trigger] final(tasks)@[i]),
        dates_of(final(tasks)@) == calendar_dates(old(tasks)@),
{
    let mut i: usize = 0;
    while i < tasks.len()
        invariant
            i <= tasks.len(),
            tasks.len() == old(tasks).len(),
            forall|k: int| 0 <= k < tasks.len() ==> same_but_dates(old(tasks)@[k], #[trigger] tasks@[k]),
            forall|k: int| 0 <= k < i ==> (#[trigger] tasks@[k]).start@ == normalized_dates(old(tasks)@[k]).0
                && tasks@[k].finish@ == normalized_dates(old(tasks)@[k]).1,
            forall|k: int| i <= k < tasks.len() ==> #[trigger] tasks@[k] == old(tasks)@[k],
        decreases tasks.len() - i,
    {
        let start = tasks[i].start;
        if tasks[i].finish.lt(&start) {
            tasks[i].finish = start;
        }
        if tasks[i].milestone {
            tasks[i].finish = start;
        }
        i = i + 1;
    }
    assert(dates_of(tasks@) =~= calendar_dates(old(tasks)@));
}

/// The position of the first task with number `id`, if any.
fn position_of(shape: &Vec<TaskSnapshot>, id: usize) -> (r: Option<usize>)
    ensures
        match r {
            Some(j) => first_index(numbers(shape@), id) == Some(j as int) && j < shape.len(),
            None => first_index(numbers(shape@), id) is None,
        },
{
    crate::model::find_task_index(shape, id)
}

/// The earliest start the predecessors of task `index` allow, starting from
/// its current start; `None` when a predecessor finishes on the last
/// representable day.
fn predecessor_bound(shape: &Vec<TaskSnapshot>, d: &Vec<(Date, Date)>, index: usize) -> (r: Option<
    Date,
>)
    requires
        index < shape.len(),
        d.len() == shape.len(),
    ensures
        match pred_fold(
            numbers(shape@),
            pair_days(d@),
            shape@[index as int].predecessors@,
            d@[index as int].0@,
        ) {
            Some(x) => r matches Some(y) && y@ == x,
            None => r is None,
        },
{
    let ghost nums = numbers(shape@);
    let ghost dv = pair_days(d@);
    let ghost preds = shape@[index as int].predecessors@;
    let mut acc = d[index].0;
    let mut k: usize = 0;
    let n = shape[index].predecessors.len();
    proof {
        lemma_max_day_is_working();
        assert(preds.skip(0) =~= preds);
    }
    while k < n
        invariant
            k <= n,
            n == preds.len(),
            index < shape.len(),
            d.len() == shape.len(),
            nums == numbers(shape@),
            dv == pair_days(d@),
            preds == shape@[index as int].predecessors@,
            is_working(MAX_DAY as int),
            pred_fold(nums, dv, preds, d@[index as int].0@) == pred_fold(
                nums,
                dv,
                preds.skip(k as int),
                acc@,
            ),
        decreases n - k,
    {
        let id = shape[index].predecessors[k];
        let ghost rest = preds.skip(k as int);
        assert(rest[0] == id);
        assert(rest.drop_first() =~= preds.skip(k + 1));
        match position_of(shape, id) {
            None => {},
            Some(j) => {
                let pf = d[j].1;
                if pf.days() >= MAX_DAY {
                    return None;
                }
                let c = next_working_day(pf.succ());
                if acc.lt(&c) {
                    acc = c;
                }
            },
        }
        k = k + 1;
    }
    assert(preds.skip(n as int) =~= Seq::<usize>::empty());
    Some(acc)
}

/// Steps `days` working days forward from `date` like
/// [`crate::calendar::add_working_days`], or `None` when the day reached lies
/// beyond the latest representable date.
fn checked_add_working_days(date: Date, days: i64) -> (r: Option<Date>)
    ensures
        match r {
            Some(x) => x@ == add_working(date@, days as int) && add_working(date@, days as int)
                <= MAX_DAY,
            None => add_working(date@, days as int) > MAX_DAY,
        },
{
    let ghost target = add_working(date@, days as int);
    proof {
        lemma_add_working(date@, days as int);
        lemma_max_day_is_working();
    }
    let mut d = date;
    let mut remaining = days;
    while remaining > 0
        invariant
            target == add_working(date@, days as int),
            add_working(d@, remaining as int) == target,
            remaining > 0 ==> d@ < target,
            is_working(MAX_DAY as int),
        decreases target - d@,
    {
        if d.days() >= MAX_DAY {
            return None;
        }
        proof {
            lemma_add_working(d@, remaining as int);
        }
        let next = d.succ();
        proof {
            lemma_next_working(next@);
            if is_working(next@) {
                assert(next_working(d@ + 1) == next@);
                lemma_add_working(next@, remaining - 1);
                if remaining - 1 == 0 {
                    assert(add_working(next@, 0) == next@);
                }
            } else {
                crate::calendar::lemma_next_working_skip(next@);
                lemma_add_working(next@, remaining as int);
            }
        }
        if crate::calendar::is_working_day(next) {
            remaining = remaining - 1;
        }
        d = next;
        proof {
            if remaining > 0 {
                lemma_add_working(d@, remaining as int);
            }
        }
    }
    let _ = d.days();
    proof {
        lemma_next_working(d@);
        lemma_weekday_succ(MAX_DAY - 1);
        lemma_weekday_succ(MAX_DAY - 2);
    }
    Some(next_working_day(d))
}

/// Runs the dependency constraint steps over all tasks on the date pairs `d`.
/// Returns whether every new date is representable; when it is, `d` holds the
/// constrained dates.
pub fn enforce_dependency_constraints(shape: &Vec<TaskSnapshot>, d: &mut Vec<(Date, Date)>) -> (r: bool)
    requires
        old(d).len() == shape.len(),
    ensures
        final(d).len() == old(d).len(),
        r == enforce_spec(shape@, pair_days(old(d)@)) is Some,
        r ==> pair_days(final(d)@) == enforce_spec(shape@, pair_days(old(d)@)).unwrap(),
{
    let len = shape.len();
    let mut index: usize = 0;
    while index < len
        invariant
            index <= len,
            len == shape.len(),
            d.len() == len,
            old(d).len() == len,
            enforce_spec(shape@, pair_days(old(d)@)) == enforce_from(
                shape@,
                pair_days(d@),
                index as int,
            ),
        decreases len - index,
    {
        let ghost dv = pair_days(d@);
        if !shape[index].summary {
            match predecessor_bound(shape, d, index) {
                None => {
                    return false;
                },
                Some(min_start) => {
                    let (s, f) = d[index];
                    if s.lt(&min_start) {
                        let milestone = shape[index].milestone;
                        let dur: i64 = if milestone {
                            0
                        } else {
                            if s.le(&f) && f.days() >= MAX_DAY {
                                return false;
                            }
                            working_days_inclusive(s, f)
                        };
                        let steps: i64 = if dur >= 1 {
                            dur - 1
                        } else {
                            0
                        };
                        match checked_add_working_days(min_start, steps) {
                            None => {
                                return false;
                            },
                            Some(nf) => {
                                let finish = if milestone {
                                    min_start
                                } else {
                                    nf
                                };
                                d.set(index, (min_start, finish));
                                proof {
                                    assert(pair_days(d@) =~= dv.update(
                                        index as int,
                                        (min_start@, finish@),
                                    ));
                                }
                            },
                        }
                    }
                },
            }
        }
        index = index + 1;
    }
    true
}

/// Rolls summary dates up from their children, deepest and latest first, so
/// that every summary with children spans from its earliest child start to
/// its latest child finish. Completed fractions (`progress_bits`) pass
/// through unchanged: the duration-weighted roll-up of summary progress is
/// floating-point work that the caller does after this call.
pub fn recompute_summary_ranges(tasks: &mut Vec<TaskSnapshot>)
    ensures
        rolled_up(old(tasks)@, dates_of(old(tasks)@), final(tasks)@),
{
    let n = tasks.len();
    let ghost shape = old(tasks)@;
    let ghost before = dates_of(shape);
    let mut index = n;
    while index > 0
        invariant
            index <= n,
            n == tasks.len(),
            shape.len() == n,
            before == dates_of(shape),
            forall|i: int| 0 <= i < n ==> same_but_dates(shape[i], #[trigger] tasks@[i]),
            forall|i: int|
                0 <= i < index ==> (#[trigger] tasks@[i]).start@ == before[i].0
                    && tasks@[i].finish@ == before[i].1,
            forall|i: int| index <= i < n ==> rolled_at(shape, before, tasks@, i),
        decreases index,
    {
        index = index - 1;
        let ghost pre = tasks@;
        if tasks[index].summary {
            let indent = tasks[index].indent;
            let mut found = false;
            let mut start = tasks[index].start;
            let mut finish = tasks[index].finish;
            let mut c = index + 1;
            while c < n && tasks[c].indent > indent
                invariant
                    index < c <= n,
                    n == tasks.len(),
                    tasks@ == pre,
                    shape.len() == n,
                    indent == shape[index as int].indent,
                    forall|i: int| 0 <= i < n ==> same_but_dates(shape[i], #[trigger] tasks@[i]),
                    forall|k: int| index < k < c ==> shape[k].indent > indent,
                    found <==> exists|k: int| index < k < c && is_child(shape, index as int, k),
                    found ==> exists|k: int|
                        index < k < c && is_child(shape, index as int, k) && tasks@[k].start@
                            == start@,
                    found ==> forall|k: int|
                        index < k < c && is_child(shape, index as int, k) ==> start@
                            <= #[trigger] tasks@[k].start@,
                    found ==> exists|k: int|
                        index < k < c && is_child(shape, index as int, k) && tasks@[k].finish@
                            == finish@,
                    found ==> forall|k: int|
                        index < k < c && is_child(shape, index as int, k) ==> #[trigger] tasks@[k].finish@
                            <= finish@,
                decreases n - c,
            {
                proof {
                    assert(same_but_dates(shape[c as int], tasks@[c as int]));
                }
                if tasks[c].indent == indent + 1 {
                    proof {
                        assert(is_child(shape, index as int, c as int));
                    }
                    if !found {
                        start = tasks[c].start;
                        finish = tasks[c].finish;
                        found = true;
                    } else {
                        start = start.min(tasks[c].start);
                        finish = finish.max(tasks[c].finish);
                    }
                }
                c = c + 1;
            }
            proof {
                assert forall|k: int| is_child(shape, index as int, k) implies k < c by {
                    if k >= c {
                        if c < n {
                            assert(same_but_dates(shape[c as int], tasks@[c as int]));
                            assert(shape[c as int].indent <= indent);
                        }
                    }
                };
            }
            if found {
                tasks[index].start = start;
                tasks[index].finish = finish;
            }
            proof {
                assert forall|i: int| index < i < n implies rolled_at(shape, before, tasks@, i) by {
                    lemma_rolled_at_frame(shape, before, pre, tasks@, i);
                }
            }
        }
    }
}

/// Whether task `i` is rolled up depends only on positions from `i` onwards.
proof fn lemma_rolled_at_frame(
    shape: Seq<TaskSnapshot>,
    before: Seq<(int, int)>,
    a: Seq<TaskSnapshot>,
    b: Seq<TaskSnapshot>,
    i: int,
)
    requires
        0 <= i < shape.len(),
        a.len() == shape.len(),
        b.len() == shape.len(),
        forall|k: int| i <= k < shape.len() ==> a[k] == b[k],
        rolled_at(shape, before, a, i),
    ensures
        rolled_at(shape, before, b, i),
{
    if rolls_up(shape, i) {
        let c1 = choose|c: int| is_child(shape, i, c) && a[c].start@ == a[i].start@;
        assert(b[c1] == a[c1]);
        let c2 = choose|c: int| is_child(shape, i, c) && a[c].finish@ == a[i].finish@;
        assert(b[c2] == a[c2]);
        assert forall|c: int| is_child(shape, i, c) implies b[i].start@ <= #[trigger] b[c].start@ by {
            assert(a[i].start@ <= a[c].start@);
        }
        assert forall|c: int| is_child(shape, i, c) implies #[trigger] b[c].finish@ <= b[i].finish@ by {
            assert(a[c].finish@ <= a[i].finish@);
        }
    }
}

/// Every summary is rolled up from the final dates of its children: a
/// summary's children follow it, so their dates are settled before it is
/// processed.
pub proof fn lemma_rolled_up_summaries_cover_children(
    shape: Seq<TaskSnapshot>,
    before: Seq<(int, int)>,
    after: Seq<TaskSnapshot>,
    i: int,
    c: int,
)
    requires
        rolled_up(shape, before, after),
        shape[i].summary,
        is_child(shape, i, c),
    ensures
        after[i].start@ <= after[c].start@,
        after[c].finish@ <= after[i].finish@,
{
    assert(rolled_at(shape, before, after, i));
}

} // verus!

verus! {

/// What the predecessor fold yields: no earlier than where it started, and
/// after the finish of every listed predecessor that exists.
pub proof fn lemma_pred_fold(nums: Seq<usize>, d: Seq<(int, int)>, preds: Seq<usize>, acc: int)
    requires
        pred_fold(nums, d, preds, acc) is Some,
    ensures
        pred_fold(nums, d, preds, acc).unwrap() >= acc,
        forall|k: int, j: int|
            0 <= k < preds.len() && first_index(nums, preds[k]) == Some(j) ==> pred_fold(
                nums,
                d,
                preds,
                acc,
            ).unwrap() >= next_working(d[j].1 + 1),
    decreases preds.len(),
{
    if preds.len() > 0 {
        let rest = preds.drop_first();
        match first_index(nums, preds[0]) {
            None => {
                lemma_pred_fold(nums, d, rest, acc);
                assert forall|k: int, j: int|
                    0 <= k < preds.len() && first_index(nums, preds[k]) == Some(j) implies pred_fold(
                    nums,
                    d,
                    preds,
                    acc,
                ).unwrap() >= next_working(d[j].1 + 1) by {
                    assert(k > 0);
                    assert(preds[k] == rest[k - 1]);
                }
            },
            Some(j0) => {
                let c = next_working(d[j0].1 + 1);
                let acc2 = if acc < c {
                    c
                } else {
                    acc
                };
                lemma_pred_fold(nums, d, rest, acc2);
                assert forall|k: int, j: int|
                    0 <= k < preds.len() && first_index(nums, preds[k]) == Some(j) implies pred_fold(
                    nums,
                    d,
                    preds,
                    acc,
                ).unwrap() >= next_working(d[j].1 + 1) by {
                    if k > 0 {
                        assert(preds[k] == rest[k - 1]);
                    }
                }
            },
        }
    }
}

/// What the constraint pass guarantees, from step `i` on: earlier entries are
/// untouched; tasks only move later; a task that started no later than it
/// finished still does; and every non-summary task starts after the finish
/// Enforcement leaves the dates of a task that it has no reason to move, a
/// summary or a task without predecessors, as they were.
pub proof fn lemma_enforce_keeps_free(shape: Seq<TaskSnapshot>, d: Seq<(int, int)>, i: int, j: int)
    requires
        0 <= i,
        d.len() == shape.len(),
        0 <= j < shape.len(),
        shape[j].summary || shape[j].predecessors@.len() == 0,
        enforce_from(shape, d, i) is Some,
    ensures
        enforce_from(shape, d, i).unwrap()[j] == d[j],
    decreases shape.len() - i,
{
    if i < shape.len() {
        let d2 = enforce_step(shape, d, i).unwrap();
        assert(d2.len() == d.len() && d2[j] == d[j]);
        lemma_enforce_keeps_free(shape, d2, i + 1, j);
    }
}

/// of each predecessor that comes before it in outline order.
pub proof fn lemma_enforce_from(shape: Seq<TaskSnapshot>, d: Seq<(int, int)>, i: int)
    requires
        0 <= i <= shape.len(),
        d.len() == shape.len(),
        enforce_from(shape, d, i) is Some,
    ensures
        ({
            let r = enforce_from(shape, d, i).unwrap();
            &&& r.len() == d.len()
            &&& forall|k: int| 0 <= k < i ==> #[trigger] r[k] == d[k]
            &&& forall|k: int| i <= k < d.len() ==> (#[trigger] r[k]).0 >= d[k].0
            &&& forall|k: int| i <= k < d.len() && d[k].0 <= d[k].1 ==> (#[trigger] r[k]).0 <= r[k].1
            &&& forall|k: int, p: int, j: int|
                #![trigger r[k], shape[k].predecessors@[p], r[j]]
                i <= k < d.len() && !shape[k].summary && 0 <= p
                    < shape[k].predecessors@.len() && first_index(
                    numbers(shape),
                    shape[k].predecessors@[p],
                ) == Some(j) && 0 <= j < k ==> r[k].0 > r[j].1
        }),
    decreases shape.len() - i,
{
    if i < shape.len() {
        let d2 = enforce_step(shape, d, i).unwrap();
        lemma_enforce_from(shape, d2, i + 1);
        let r = enforce_from(shape, d, i).unwrap();
        assert(r == enforce_from(shape, d2, i + 1).unwrap());
        let t = shape[i];
        if !t.summary {
            let preds = t.predecessors@;
            lemma_pred_fold(numbers(shape), d, preds, d[i].0);
            let ms = pred_fold(numbers(shape), d, preds, d[i].0).unwrap();
            if d[i].0 < ms {
                let dur = if t.milestone {
                    0
                } else {
                    count_working(d[i].0, d[i].1) as int
                };
                lemma_add_working(ms, if dur >= 1 { dur - 1 } else { 0 });
            }
            assert(d2[i].0 == ms);
            assert forall|p: int, j: int|
                0 <= p < preds.len() && first_index(numbers(shape), preds[p]) == Some(j) && 0 <= j
                    < i implies r[i].0 > r[j].1 by {
                lemma_next_working(d[j].1 + 1);
                assert(r[j] == d2[j]);
                assert(d2[j] == d[j]);
            }
        }
        assert forall|k: int| 0 <= k < i implies #[trigger] r[k] == d[k] by {
            assert(r[k] == d2[k]);
        }
    }
}

} // verus!
