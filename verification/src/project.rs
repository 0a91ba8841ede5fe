//! Whole-project operations: normalisation, edits with rescheduling, and
//! structural changes (inserting a task, removing a subtree, dropping
//! unnamed rows).
use crate::calendar::Date;
use crate::model::{
    bounds_hold, cleared, dates_of, find_task_index, first_index, is_child, numbers,
    same_but_dates, subtree_end, subtree_end_of, ProjectSnapshot, TaskSnapshot,
};
use crate::schedule::{
    calendar_dates, edit_task, edited, edited_texts, enforce_dependency_constraints, enforce_spec,
    lemma_edited_dates_ignore_texts, texts_after,
    normalize_calendar, normalized_dates, pair_days, recompute_summary_ranges, rolled_at,
    rolled_up, rolls_up, EditCommand,
};
use vstd::prelude::*;

verus! {

/// Roll-up only looks at the non-date fields of its shape, so shapes that
/// agree on them give the same result.
pub proof fn lemma_rolled_up_same_shape(
    s1: Seq<TaskSnapshot>,
    s2: Seq<TaskSnapshot>,
    before: Seq<(int, int)>,
    after: Seq<TaskSnapshot>,
)
    requires
        s1.len() == s2.len(),
        forall|i: int| 0 <= i < s1.len() ==> same_but_dates(s1[i], #[trigger] s2[i]),
        rolled_up(s1, before, after),
    ensures
        rolled_up(s2, before, after),
{
    assert forall|i: int, c: int| is_child(s1, i, c) <==> is_child(s2, i, c) by {
        if 0 <= i < s1.len() && 0 <= c < s1.len() {
            assert(same_but_dates(s1[i], s2[i]));
            assert(same_but_dates(s1[c], s2[c]));
            if is_child(s1, i, c) {
                assert forall|k: int| i < k <= c implies s2[k].indent > s2[i].indent by {
                    assert(same_but_dates(s1[k], s2[k]));
                }
            }
            if is_child(s2, i, c) {
                assert forall|k: int| i < k <= c implies s1[k].indent > s1[i].indent by {
                    assert(same_but_dates(s1[k], s2[k]));
                }
            }
        }
    }
    assert forall|i: int| 0 <= i < s2.len() implies same_but_dates(s2[i], #[trigger] after[i]) by {
        assert(same_but_dates(s1[i], s2[i]));
        assert(same_but_dates(s1[i], after[i]));
    }
    assert forall|i: int| 0 <= i < s2.len() implies rolled_at(s2, before, after, i) by {
        assert(same_but_dates(s1[i], s2[i]));
        assert(rolled_at(s1, before, after, i));
        assert(rolls_up(s1, i) == rolls_up(s2, i));
    }
}

/// The calendar-normalised dates of all tasks after `edit`.
fn edited_dates(tasks: &Vec<TaskSnapshot>, edit: &EditCommand) -> (r: Vec<(Date, Date)>)
    ensures
        r.len() == tasks.len(),
        pair_days(r@) == calendar_dates(edited(tasks@, *edit)),
{
    let target = find_task_index(tasks, edit.id());
    let ghost ed = edited(tasks@, *edit);
    let mut out: Vec<(Date, Date)> = Vec::new();
    let mut i: usize = 0;
    while i < tasks.len()
        invariant
            i <= tasks.len(),
            ed == edited(tasks@, *edit),
            match target {
                Some(j) => first_index(numbers(tasks@), edit.target()) == Some(j as int),
                None => first_index(numbers(tasks@), edit.target()) is None,
            },
            out.len() == i,
            forall|k: int| 0 <= k < i ==> (#[trigger] out@[k]).0@ == normalized_dates(ed[k]).0
                && out@[k].1@ == normalized_dates(ed[k]).1,
        decreases tasks.len() - i,
    {
        let t = &tasks[i];
        let mut s = t.start;
        let mut f = t.finish;
        let is_target = match target {
            Some(j) => j == i,
            None => false,
        };
        if is_target {
            match edit {
                EditCommand::Move { start, finish, .. } => {
                    s = *start;
                    f = if t.milestone {
                        *start
                    } else {
                        *finish
                    };
                },
                EditCommand::ResizeStart { start, .. } => {
                    s = start.min(t.finish);
                    if t.milestone {
                        f = s;
                    }
                },
                EditCommand::ResizeEnd { finish, .. } => {
                    f = if t.milestone {
                        t.start
                    } else {
                        finish.max(t.start)
                    };
                },
                EditCommand::SetProgress { .. } => {},
            }
        }
        if t.milestone || f.lt(&s) {
            f = s;
        }
        out.push((s, f));
        proof {
            let e = ed[i as int];
            if is_target {
                assert(e == edit_task(cleared(tasks@[i as int]), *edit));
            } else {
                assert(e == cleared(tasks@[i as int]));
            }
        }
        i = i + 1;
    }
    assert(pair_days(out@) =~= calendar_dates(ed));
    out
}

impl ProjectSnapshot {
    /// Whether rescheduling after `edit` keeps every date representable.
    pub open spec fn edit_fits(self, edit: EditCommand) -> bool {
        enforce_spec(self.tasks@, calendar_dates(edited(self.tasks@, edit))) is Some
    }

    /// The task dates after `edit` and dependency enforcement, before
    /// summaries are rolled up.
    pub open spec fn edit_dates(self, edit: EditCommand) -> Seq<(int, int)> {
        enforce_spec(self.tasks@, calendar_dates(edited(self.tasks@, edit))).unwrap()
    }

    /// Normalises dates to the calendar rules, rolls summary dates up from
    /// their children and recomputes the project range. Completed fractions
    /// pass through unchanged; rolling summary progress up is floating-point
    /// work left to the caller.
    pub fn normalize(&mut self)
        ensures
            rolled_up(old(self).tasks@, calendar_dates(old(self).tasks@), final(self).tasks@),
            bounds_hold(*final(self)),
    {
        let ghost before = self.tasks@;
        normalize_calendar(&mut self.tasks);
        let ghost mid = self.tasks@;
        recompute_summary_ranges(&mut self.tasks);
        proof {
            assert forall|i: int| 0 <= i < mid.len() implies same_but_dates(
                mid[i],
                #[trigger] before[i],
            ) by {
                assert(same_but_dates(before[i], mid[i]));
            }
            lemma_rolled_up_same_shape(mid, before, dates_of(mid), self.tasks@);
        }
        self.refresh_bounds();
    }

    /// Applies `edit` when the resulting schedule is representable and
    /// reports whether it was applied; the start, finish and duration texts
    /// of all tasks are cleared when `clear` and kept otherwise.
    fn apply_edit_texts(&mut self, edit: EditCommand, clear: bool) -> (r: bool)
        ensures
            r == old(self).edit_fits(edit),
            !r ==> *final(self) == *old(self),
            r ==> rolled_up(
                edited_texts(old(self).tasks@, edit, clear),
                old(self).edit_dates(edit),
                final(self).tasks@,
            ),
            r ==> bounds_hold(*final(self)),
    {
        let ghost ed = edited_texts(self.tasks@, edit, clear);
        proof {
            lemma_edited_dates_ignore_texts(self.tasks@, edit, clear);
        }
        let mut d = edited_dates(&self.tasks, &edit);
        let ghost d0 = pair_days(d@);
        if !enforce_dependency_constraints(&self.tasks, &mut d) {
            return false;
        }
        let ghost enforced = pair_days(d@);
        assert(enforced == old(self).edit_dates(edit));
        let target = self.task_index(edit.id());
        let ghost old_tasks = self.tasks@;
        let n = self.tasks.len();
        let mut i: usize = 0;
        while i < n
            invariant
                i <= n,
                n == self.tasks.len(),
                n == d.len(),
                old_tasks.len() == n,
                ed == edited_texts(old_tasks, edit, clear),
                enforced == pair_days(d@),
                match target {
                    Some(j) => first_index(numbers(old_tasks), edit.target()) == Some(j as int),
                    None => first_index(numbers(old_tasks), edit.target()) is None,
                },
                forall|k: int| 0 <= k < i ==> same_but_dates(ed[k], #[trigger] self.tasks@[k]),
                forall|k: int| 0 <= k < i ==> (#[trigger] self.tasks@[k]).start@ == enforced[k].0
                    && self.tasks@[k].finish@ == enforced[k].1,
                forall|k: int| i <= k < n ==> #[trigger] self.tasks@[k] == old_tasks[k],
            decreases n - i,
        {
            let (s, f) = d[i];
            if clear {
                self.tasks[i].start_text = None;
                self.tasks[i].finish_text = None;
                self.tasks[i].duration_text = None;
            }
            self.tasks[i].start = s;
            self.tasks[i].finish = f;
            let is_target = match target {
                Some(j) => j == i,
                None => false,
            };
            if is_target {
                match edit {
                    EditCommand::SetProgress { progress_bits, .. } => {
                        self.tasks[i].progress_bits = progress_bits;
                    },
                    _ => {},
                }
            }
            proof {
                if is_target {
                    assert(ed[i as int] == edit_task(texts_after(old_tasks[i as int], clear), edit));
                } else {
                    assert(ed[i as int] == texts_after(old_tasks[i as int], clear));
                }
            }
            i = i + 1;
        }
        let ghost mid = self.tasks@;
        assert(dates_of(mid) =~= enforced);
        recompute_summary_ranges(&mut self.tasks);
        proof {
            assert forall|k: int| 0 <= k < mid.len() implies same_but_dates(
                mid[k],
                #[trigger] ed[k],
            ) by {
                assert(same_but_dates(ed[k], mid[k]));
            }
            lemma_rolled_up_same_shape(mid, ed, dates_of(mid), self.tasks@);
        }
        self.refresh_bounds();
        true
    }

    /// Applies `edit` when the resulting schedule is representable and
    /// reports whether it was applied; otherwise the project is unchanged.
    ///
    /// Applying clears the start, finish and duration texts of all tasks,
    /// edits the first task with the target number, normalises dates to the
    /// calendar, pushes tasks past their predecessors in outline order, rolls
    /// summary dates up and recomputes the project range.
    ///
    /// `SetProgress` stores the given completed fraction as it is, and other
    /// fractions pass through unchanged: clamping the new fraction to 0..=1
    /// and rolling summary progress up are floating-point work that the
    /// caller does (before and after this call).
    pub fn checked_apply_edit(&mut self, edit: EditCommand) -> (r: bool)
        ensures
            r == old(self).edit_fits(edit),
            !r ==> *final(self) == *old(self),
            r ==> rolled_up(
                edited(old(self).tasks@, edit),
                old(self).edit_dates(edit),
                final(self).tasks@,
            ),
            r ==> bounds_hold(*final(self)),
    {
        self.apply_edit_texts(edit, true)
    }

    /// Applies `edit` (see [`ProjectSnapshot::checked_apply_edit`], also for
    /// completed fractions, which the caller clamps and rolls up); the
    /// rescheduled dates must be representable.
    pub fn apply_edit(&mut self, edit: EditCommand)
        requires
            old(self).edit_fits(edit),
        ensures
            rolled_up(edited(old(self).tasks@, edit), old(self).edit_dates(edit), final(self).tasks@),
            bounds_hold(*final(self)),
    {
        let _ = self.checked_apply_edit(edit);
    }

    /// Inserts `task` right after position `index` (at the end when `index`
    /// is past it) and normalises the project.
    pub fn insert_task_after(&mut self, index: usize, task: TaskSnapshot)
        requires
            index < usize::MAX,
        ensures
            ({
                let pos = if index + 1 <= old(self).tasks@.len() {
                    index + 1
                } else {
                    old(self).tasks@.len() as int
                };
                let ins = old(self).tasks@.insert(pos, task);
                rolled_up(ins, calendar_dates(ins), final(self).tasks@)
            }),
            bounds_hold(*final(self)),
    {
        let insert_at = if index + 1 <= self.tasks.len() {
            index + 1
        } else {
            self.tasks.len()
        };
        self.tasks.insert(insert_at, task);
        self.normalize();
    }

    /// Removes the task at `index` together with its descendants and
    /// normalises the project; an index past the end changes nothing.
    pub fn remove_subtree_at(&mut self, index: usize)
        ensures
            index >= old(self).tasks@.len() ==> *final(self) == *old(self),
            index < old(self).tasks@.len() ==> ({
                let ts = old(self).tasks@;
                let kept = ts.subrange(0, index as int) + ts.subrange(
                    subtree_end(ts, index as int),
                    ts.len() as int,
                );
                rolled_up(kept, calendar_dates(kept), final(self).tasks@)
            }),
            index < old(self).tasks@.len() ==> bounds_hold(*final(self)),
    {
        if index >= self.tasks.len() {
            return;
        }
        let ghost ts = self.tasks@;
        let end = subtree_end_of(&self.tasks, index);
        let mut k = index;
        while k < end
            invariant
                index <= k <= end,
                end <= ts.len(),
                self.tasks@ == ts.subrange(0, index as int) + ts.subrange(k as int, ts.len() as int),
            decreases end - k,
        {
            self.tasks.remove(index);
            k = k + 1;
            assert(self.tasks@ =~= ts.subrange(0, index as int) + ts.subrange(
                k as int,
                ts.len() as int,
            ));
        }
        self.normalize();
    }
}

/// Whether a task row is kept when a saved document is loaded: it has a
/// number or a name.
pub open spec fn is_named_row(t: TaskSnapshot) -> bool {
    t.number > 0 || t.name@.len() > 0
}

/// The rows of `ts` that are kept, in order.
pub open spec fn named_rows(ts: Seq<TaskSnapshot>) -> Seq<TaskSnapshot>
    decreases ts.len(),
{
    if ts.len() == 0 {
        Seq::empty()
    } else {
        let rest = named_rows(ts.drop_last());
        if is_named_row(ts.last()) {
            rest.push(ts.last())
        } else {
            rest
        }
    }
}

impl ProjectSnapshot {
    /// Drops rows with neither a number nor a name, then normalises.
    pub fn drop_unnamed_and_normalize(&mut self)
        ensures
            ({
                let kept = named_rows(old(self).tasks@);
                rolled_up(kept, calendar_dates(kept), final(self).tasks@)
            }),
            bounds_hold(*final(self)),
    {
        let ghost ts = self.tasks@;
        let n = self.tasks.len();
        let mut j: usize = 0;
        let mut i: usize = 0;
        while j < n
            invariant
                n == ts.len(),
                j <= ts.len(),
                i <= j,
                self.tasks@ == named_rows(ts.subrange(0, j as int)) + ts.subrange(
                    j as int,
                    ts.len() as int,
                ),
                i == named_rows(ts.subrange(0, j as int)).len(),
            decreases n - j,
        {
            let ghost pre = ts.subrange(0, j + 1);
            assert(pre.drop_last() =~= ts.subrange(0, j as int));
            assert(pre.last() == ts[j as int]);
            assert(self.tasks@[i as int] == ts[j as int]);
            let keep = self.tasks[i].number > 0 || self.tasks[i].name.unicode_len() > 0;
            if keep {
                i = i + 1;
            } else {
                self.tasks.remove(i);
            }
            j = j + 1;
            assert(self.tasks@ =~= named_rows(ts.subrange(0, j as int)) + ts.subrange(
                j as int,
                ts.len() as int,
            ));
        }
        assert(ts.subrange(0, ts.len() as int) =~= ts);
        assert(self.tasks@ =~= named_rows(ts));
        self.normalize();
    }
}


/// Applies `edit` to the project as [`ProjectSnapshot::checked_apply_edit`]
/// does, but keeps the start, finish and duration texts of all tasks; the
/// rescheduled dates must be representable. As there, completed fractions
/// are stored and passed through unchanged, and the caller clamps the new
/// fraction and rolls summary progress up.
pub fn apply_edit(snapshot: &mut ProjectSnapshot, edit: EditCommand)
    requires
        old(snapshot).edit_fits(edit),
    ensures
        rolled_up(
            edited_texts(old(snapshot).tasks@, edit, false),
            old(snapshot).edit_dates(edit),
            final(snapshot).tasks@,
        ),
        bounds_hold(*final(snapshot)),
{
    let _ = snapshot.apply_edit_texts(edit, false);
}

/// The format version of a loaded project document: a missing version (0)
/// reads as version 1.
pub fn document_version(version: u32) -> (r: u32)
    ensures
        r == if version == 0 {
            1
        } else {
            version
        },
{
    if version == 0 {
        1
    } else {
        version
    }
}

} // verus!

verus! {

/// Roll-up keeps dates ordered: if every task that is not rolled up starts
/// no later than it finishes, so does every task afterwards.
pub(crate) proof fn lemma_rolled_up_ordered_from(
    shape: Seq<TaskSnapshot>,
    before: Seq<(int, int)>,
    after: Seq<TaskSnapshot>,
    i: int,
)
    requires
        rolled_up(shape, before, after),
        0 <= i <= shape.len(),
        forall|k: int| 0 <= k < shape.len() && !rolls_up(shape, k) ==> before[k].0 <= before[k].1,
    ensures
        forall|k: int| i <= k < shape.len() ==> (#[trigger] after[k]).start@ <= after[k].finish@,
    decreases shape.len() - i,
{
    if i < shape.len() {
        lemma_rolled_up_ordered_from(shape, before, after, i + 1);
        assert(rolled_at(shape, before, after, i));
        if rolls_up(shape, i) {
            let c1 = choose|c: int| is_child(shape, i, c) && after[c].start@ == after[i].start@;
            assert(after[c1].start@ <= after[c1].finish@);
            assert(after[c1].finish@ <= after[i].finish@);
        }
    }
}

/// After normalisation every task starts no later than it finishes.
pub proof fn lemma_normalize_orders_dates(before: Seq<TaskSnapshot>, after: Seq<TaskSnapshot>)
    requires
        rolled_up(before, calendar_dates(before), after),
    ensures
        forall|k: int| 0 <= k < after.len() ==> (#[trigger] after[k]).start@ <= after[k].finish@,
{
    lemma_rolled_up_ordered_from(before, calendar_dates(before), after, 0);
}

/// After an edit, whether or not it clears the display texts, every task
/// starts no later than it finishes.
pub proof fn lemma_edit_orders_dates(
    p: ProjectSnapshot,
    edit: EditCommand,
    clear: bool,
    after: Seq<TaskSnapshot>,
)
    requires
        p.edit_fits(edit),
        rolled_up(edited_texts(p.tasks@, edit, clear), p.edit_dates(edit), after),
    ensures
        forall|k: int| 0 <= k < after.len() ==> (#[trigger] after[k]).start@ <= after[k].finish@,
{
    let shape = p.tasks@;
    let cal = calendar_dates(edited(shape, edit));
    crate::schedule::lemma_enforce_from(shape, cal, 0);
    lemma_rolled_up_ordered_from(edited_texts(shape, edit, clear), p.edit_dates(edit), after, 0);
}

/// After an edit, whether or not it clears the display texts, every task
/// that is not a summary starts after the finish of each of its predecessors
/// that is not a summary and comes before it in outline order.
pub proof fn lemma_edit_orders_dependencies(
    p: ProjectSnapshot,
    edit: EditCommand,
    clear: bool,
    after: Seq<TaskSnapshot>,
    i: int,
    k: int,
    j: int,
)
    requires
        p.edit_fits(edit),
        rolled_up(edited_texts(p.tasks@, edit, clear), p.edit_dates(edit), after),
        0 <= j < i < p.tasks@.len(),
        !p.tasks@[i].summary,
        !p.tasks@[j].summary,
        0 <= k < p.tasks@[i].predecessors@.len(),
        first_index(numbers(p.tasks@), p.tasks@[i].predecessors@[k]) == Some(j),
    ensures
        after[i].start@ > after[j].finish@,
{
    let shape = p.tasks@;
    let ed = edited_texts(shape, edit, clear);
    let cal = calendar_dates(edited(shape, edit));
    crate::schedule::lemma_enforce_from(shape, cal, 0);
    let r = p.edit_dates(edit);
    assert(r[i].0 > r[j].1);
    assert(rolled_at(ed, r, after, i));
    assert(rolled_at(ed, r, after, j));
    assert(ed[i].summary == shape[i].summary);
    assert(ed[j].summary == shape[j].summary);
}

/// Roll-up is determined by the dates of the tasks that are not rolled up.
proof fn lemma_rolled_up_unique_from(
    shape: Seq<TaskSnapshot>,
    b1: Seq<(int, int)>,
    b2: Seq<(int, int)>,
    a1: Seq<TaskSnapshot>,
    a2: Seq<TaskSnapshot>,
    i: int,
)
    requires
        rolled_up(shape, b1, a1),
        rolled_up(shape, b2, a2),
        0 <= i <= shape.len(),
        forall|k: int| 0 <= k < shape.len() && !rolls_up(shape, k) ==> b1[k] == b2[k],
    ensures
        forall|k: int| i <= k < shape.len() ==> (#[trigger] a1[k]).start@ == a2[k].start@
            && a1[k].finish@ == a2[k].finish@,
    decreases shape.len() - i,
{
    if i < shape.len() {
        lemma_rolled_up_unique_from(shape, b1, b2, a1, a2, i + 1);
        assert(rolled_at(shape, b1, a1, i));
        assert(rolled_at(shape, b2, a2, i));
        if rolls_up(shape, i) {
            let c1 = choose|c: int| is_child(shape, i, c) && a1[c].start@ == a1[i].start@;
            let c2 = choose|c: int| is_child(shape, i, c) && a2[c].start@ == a2[i].start@;
            assert(a1[c1].start@ == a2[c1].start@);
            assert(a1[c2].start@ == a2[c2].start@);
            assert(a2[i].start@ <= a2[c1].start@);
            assert(a1[i].start@ <= a1[c2].start@);
            let e1 = choose|c: int| is_child(shape, i, c) && a1[c].finish@ == a1[i].finish@;
            let e2 = choose|c: int| is_child(shape, i, c) && a2[c].finish@ == a2[i].finish@;
            assert(a1[e1].finish@ == a2[e1].finish@);
            assert(a1[e2].finish@ == a2[e2].finish@);
            assert(a2[e1].finish@ <= a2[i].finish@);
            assert(a1[e2].finish@ <= a1[i].finish@);
        }
    }
}

/// Normalising an already normalised task list changes nothing.
pub proof fn lemma_normalize_idempotent(
    t0: Seq<TaskSnapshot>,
    t1: Seq<TaskSnapshot>,
    t2: Seq<TaskSnapshot>,
)
    requires
        rolled_up(t0, calendar_dates(t0), t1),
        rolled_up(t1, calendar_dates(t1), t2),
    ensures
        t2 == t1,
{
    lemma_normalize_orders_dates(t0, t1);
    assert forall|k: int| 0 <= k < t0.len() implies same_but_dates(t1[k], #[trigger] t0[k]) by {
        assert(same_but_dates(t0[k], t1[k]));
    }
    lemma_rolled_up_same_shape(t1, t0, calendar_dates(t1), t2);
    assert forall|k: int| 0 <= k < t0.len() && !rolls_up(t0, k) implies calendar_dates(t0)[k]
        == calendar_dates(t1)[k] by {
        assert(same_but_dates(t0[k], t1[k]));
        assert(rolled_at(t0, calendar_dates(t0), t1, k));
        assert(t1[k].start@ <= t1[k].finish@);
    }
    lemma_rolled_up_unique_from(t0, calendar_dates(t0), calendar_dates(t1), t1, t2, 0);
    assert forall|k: int| 0 <= k < t1.len() implies t2[k] == t1[k] by {
        assert(same_but_dates(t1[k], t2[k]));
        crate::calendar::lemma_date_view_injective(t1[k].start, t2[k].start);
        crate::calendar::lemma_date_view_injective(t1[k].finish, t2[k].finish);
    }
    assert(t2 =~= t1);
}

/// The dates that enforcement gives a task without predecessors that is not a
/// summary: the calendar-normalised dates of the edited task.
proof fn lemma_free_task_edit_dates(p: ProjectSnapshot, edit: EditCommand, clear: bool, j: int, after: Seq<TaskSnapshot>)
    requires
        0 <= j < p.tasks@.len(),
        !p.tasks@[j].summary,
        p.tasks@[j].predecessors@.len() == 0,
        p.edit_fits(edit),
        rolled_up(edited_texts(p.tasks@, edit, clear), p.edit_dates(edit), after),
    ensures
        after[j].start@ == calendar_dates(edited(p.tasks@, edit))[j].0,
        after[j].finish@ == calendar_dates(edited(p.tasks@, edit))[j].1,
{
    let cal = calendar_dates(edited(p.tasks@, edit));
    crate::schedule::lemma_enforce_keeps_free(p.tasks@, cal, 0, j);
    let ed = edited_texts(p.tasks@, edit, clear);
    assert(rolled_at(ed, p.edit_dates(edit), after, j));
    assert(ed[j].summary == p.tasks@[j].summary);
}

/// Dragging the start of a bar: the task the edit names, when it is not a
/// summary and has no predecessors, starts on the requested day, or on its
/// finish when the requested day is later; a milestone then finishes on its
/// new start, and any other task keeps its finish.
pub proof fn lemma_resize_start_sets_start(
    p: ProjectSnapshot,
    id: usize,
    start: Date,
    clear: bool,
    j: int,
    after: Seq<TaskSnapshot>,
)
    requires
        first_index(numbers(p.tasks@), id) == Some(j),
        !p.tasks@[j].summary,
        p.tasks@[j].predecessors@.len() == 0,
        p.edit_fits(EditCommand::ResizeStart { id, start }),
        rolled_up(
            edited_texts(p.tasks@, EditCommand::ResizeStart { id, start }, clear),
            p.edit_dates(EditCommand::ResizeStart { id, start }),
            after,
        ),
    ensures
        ({
            let f = p.tasks@[j].finish@;
            let s = if start@ <= f {
                start@
            } else {
                f
            };
            &&& after[j].start@ == s
            &&& after[j].finish@ == if p.tasks@[j].milestone {
                s
            } else {
                f
            }
        }),
{
    assert(crate::model::is_first_index(numbers(p.tasks@), id, j));
    lemma_free_task_edit_dates(p, EditCommand::ResizeStart { id, start }, clear, j, after);
}

/// Dragging the end of a bar: the task the edit names, when it is not a
/// summary and has no predecessors, keeps its start and finishes on the
/// requested day, or on its start when the requested day is earlier; a
/// milestone keeps finishing on its start.
pub proof fn lemma_resize_end_sets_finish(
    p: ProjectSnapshot,
    id: usize,
    finish: Date,
    clear: bool,
    j: int,
    after: Seq<TaskSnapshot>,
)
    requires
        first_index(numbers(p.tasks@), id) == Some(j),
        !p.tasks@[j].summary,
        p.tasks@[j].predecessors@.len() == 0,
        p.edit_fits(EditCommand::ResizeEnd { id, finish }),
        rolled_up(
            edited_texts(p.tasks@, EditCommand::ResizeEnd { id, finish }, clear),
            p.edit_dates(EditCommand::ResizeEnd { id, finish }),
            after,
        ),
    ensures
        ({
            let s = p.tasks@[j].start@;
            &&& after[j].start@ == s
            &&& after[j].finish@ == if p.tasks@[j].milestone {
                s
            } else if finish@ >= s {
                finish@
            } else {
                s
            }
        }),
{
    assert(crate::model::is_first_index(numbers(p.tasks@), id, j));
    lemma_free_task_edit_dates(p, EditCommand::ResizeEnd { id, finish }, clear, j, after);
}

/// Moving a bar: the task the edit names, when it is not a summary and has no
/// predecessors, starts on the requested start and finishes on the requested
/// finish; a milestone, or a requested finish before the start, finishes on
/// the start.
pub proof fn lemma_move_sets_dates(
    p: ProjectSnapshot,
    id: usize,
    start: Date,
    finish: Date,
    clear: bool,
    j: int,
    after: Seq<TaskSnapshot>,
)
    requires
        first_index(numbers(p.tasks@), id) == Some(j),
        !p.tasks@[j].summary,
        p.tasks@[j].predecessors@.len() == 0,
        p.edit_fits(EditCommand::Move { id, start, finish }),
        rolled_up(
            edited_texts(p.tasks@, EditCommand::Move { id, start, finish }, clear),
            p.edit_dates(EditCommand::Move { id, start, finish }),
            after,
        ),
    ensures
        after[j].start@ == start@,
        after[j].finish@ == if p.tasks@[j].milestone || finish@ < start@ {
            start@
        } else {
            finish@
        },
{
    assert(crate::model::is_first_index(numbers(p.tasks@), id, j));
    lemma_free_task_edit_dates(p, EditCommand::Move { id, start, finish }, clear, j, after);
}

} // verus!
