//! The planner's edits of the selected task: dragging its bar, the text
//! fields of the task inspector, adding and deleting tasks, collapsing
//! summaries and choosing the selection after a change.
use crate::calendar::{day_in_range, formatted_date, ymd_parse_result, Date, MAX_DAY};
use crate::model::{
    bounds_hold, first_index, max_number, numbers, subtree_end, subtree_end_of, ProjectSnapshot,
    TaskSnapshot,
};
use crate::outline::subtree_task_ids;
use crate::schedule::{calendar_dates, rolled_up, EditCommand};
use crate::text::{
    decimal, decimal_string, join, join_spec, parse_usize, split_on, split_on_char, trim_spec,
    trim_string, usize_parse_spec,
};
use std::collections::HashSet;
use vstd::prelude::*;

verus! {

broadcast use vstd::std_specs::hash::group_hash_axioms;

/// What a drag on a task bar changes.
#[derive(Clone, Copy, Debug, PartialEq, Eq, Structural)]
pub enum DragAction {
    /// Moves the whole bar.
    Move,
    /// Moves the start.
    ResizeStart,
    /// Moves the finish.
    ResizeEnd,
    /// Sets the completed fraction.
    Progress,
}

/// Whether the dates that a drag by `delta_days` produces are representable.
pub open spec fn drag_fits(
    action: DragAction,
    initial_start: Date,
    initial_finish: Date,
    delta_days: int,
) -> bool {
    match action {
        DragAction::Move => day_in_range(initial_start@ + delta_days) && day_in_range(
            initial_finish@ + delta_days,
        ),
        DragAction::ResizeStart => day_in_range(initial_start@ + delta_days),
        DragAction::ResizeEnd => day_in_range(initial_finish@ + delta_days),
        DragAction::Progress => true,
    }
}

/// The edit made by a drag of the bar of task `task_id`, whose dates were
/// `initial_start` and `initial_finish` when the drag began: a move or a
/// resize shifts the dragged dates by `delta_days` days, and a progress drag
/// sets the completed fraction whose bit pattern is `progress_bits`.
pub fn drag_edit(
    action: DragAction,
    task_id: usize,
    initial_start: Date,
    initial_finish: Date,
    delta_days: i64,
    progress_bits: u32,
) -> (r: EditCommand)
    requires
        drag_fits(action, initial_start, initial_finish, delta_days as int),
    ensures
        match action {
            DragAction::Move => r matches EditCommand::Move { id, start, finish } && id == task_id
                && start@ == initial_start@ + delta_days && finish@ == initial_finish@
                + delta_days,
            DragAction::ResizeStart => r matches EditCommand::ResizeStart { id, start } && id
                == task_id && start@ == initial_start@ + delta_days,
            DragAction::ResizeEnd => r matches EditCommand::ResizeEnd { id, finish } && id
                == task_id && finish@ == initial_finish@ + delta_days,
            DragAction::Progress => r == EditCommand::SetProgress { id: task_id, progress_bits },
        },
{
    match action {
        DragAction::Move => EditCommand::Move {
            id: task_id,
            start: initial_start.add_days(delta_days),
            finish: initial_finish.add_days(delta_days),
        },
        DragAction::ResizeStart => EditCommand::ResizeStart {
            id: task_id,
            start: initial_start.add_days(delta_days),
        },
        DragAction::ResizeEnd => EditCommand::ResizeEnd {
            id: task_id,
            finish: initial_finish.add_days(delta_days),
        },
        DragAction::Progress => EditCommand::SetProgress { id: task_id, progress_bits },
    }
}

/// The edit that a date typed into the inspector makes: the start (or the
/// finish) of task `task_id` moves to the date read from the trimmed text;
/// a text that is not a `YYYY-MM-DD` date makes none.
pub fn date_edit(task_id: usize, text: &str, start: bool) -> (r: Option<EditCommand>)
    ensures
        match ymd_parse_result(trim_spec(text@)) {
            Err(_) => r is None,
            Ok(n) => if start {
                r matches Some(EditCommand::ResizeStart { id, start }) && id == task_id && start@
                    == n
            } else {
                r matches Some(EditCommand::ResizeEnd { id, finish }) && id == task_id && finish@
                    == n
            },
        },
{
    let trimmed = trim_string(text);
    match Date::parse_ymd(trimmed.as_str()) {
        Err(_) => None,
        Ok(date) => if start {
            Some(EditCommand::ResizeStart { id: task_id, start: date })
        } else {
            Some(EditCommand::ResizeEnd { id: task_id, finish: date })
        },
    }
}

/// Collapses an expanded summary, or expands a collapsed one.
pub fn toggle_collapsed(collapsed: &mut HashSet<usize>, task_id: usize)
    ensures
        final(collapsed)@ == if old(collapsed)@.contains(task_id) {
            old(collapsed)@.remove(task_id)
        } else {
            old(collapsed)@.insert(task_id)
        },
{
    if !collapsed.insert(task_id) {
        collapsed.remove(&task_id);
    }
}

/// The number of the first task, or 0 for a project without tasks.
pub fn first_task_number(snapshot: &ProjectSnapshot) -> (r: usize)
    ensures
        r == if snapshot.tasks@.len() > 0 {
            snapshot.tasks@[0].number
        } else {
            0
        },
{
    if snapshot.tasks.len() > 0 {
        snapshot.tasks[0].number
    } else {
        0
    }
}

/// The selection kept after a document is restored: the selected task when
/// the project still holds it, else the first task, else 0.
pub fn selection_after_restore(snapshot: &ProjectSnapshot, selected_id: usize) -> (r: usize)
    ensures
        r == if first_index(numbers(snapshot.tasks@), selected_id) is Some {
            selected_id
        } else if snapshot.tasks@.len() > 0 {
            snapshot.tasks@[0].number
        } else {
            0
        },
{
    match snapshot.task_index(selected_id) {
        Some(j) => {
            assert(numbers(snapshot.tasks@)[j as int] == selected_id);
            snapshot.tasks[j].number
        },
        None => first_task_number(snapshot),
    }
}

/// The texts that the task inspector shows for a task.
pub struct InspectorTexts {
    pub start: String,
    pub finish: String,
    pub name: String,
    pub indent: String,
    pub predecessors: String,
}

/// The inspector texts of a task: its dates as `YYYY-MM-DD`, its name, its
/// outline depth, and its predecessor numbers separated by `, `.
pub fn inspector_texts(task: &TaskSnapshot) -> (r: InspectorTexts)
    ensures
        r.start@ == formatted_date(task.start@, "%Y-%m-%d"@),
        r.finish@ == formatted_date(task.finish@, "%Y-%m-%d"@),
        r.name@ == task.name@,
        r.indent@ == decimal(task.indent as nat),
        r.predecessors@ == join_spec(
            task.predecessors@.map_values(|p: usize| decimal(p as nat)),
            ", "@,
        ),
{
    InspectorTexts {
        start: task.start.format("%Y-%m-%d"),
        finish: task.finish.format("%Y-%m-%d"),
        name: task.name.clone(),
        indent: decimal_string(task.indent as u64),
        predecessors: predecessors_text(&task.predecessors, ", "),
    }
}

/// `t` is the task that "Add Child" (or "Add Sibling") makes next to
/// `reference`, numbered `id`: a one-day task on the day after the
/// reference finishes, one level deeper for a child, with no progress,
/// links, resources, texts, notes or deadline.
pub open spec fn is_added_task(t: TaskSnapshot, id: usize, reference: TaskSnapshot, child: bool) -> bool {
    &&& t.number == id
    &&& t.name@ == if child {
        "New child task"@
    } else {
        "New task"@
    }
    &&& t.start@ == reference.finish@ + 1
    &&& t.finish@ == reference.finish@ + 1
    &&& t.progress_bits == 0
    &&& t.indent == if child {
        reference.indent + 1
    } else {
        reference.indent as int
    }
    &&& !t.summary
    &&& !t.milestone
    &&& t.predecessors@.len() == 0
    &&& t.resource_names@.len() == 0
    &&& t.start_text is None
    &&& t.finish_text is None
    &&& t.duration_text is None
    &&& t.notes is None
    &&& t.deadline is None
}

/// What adding next to the selected task needs: a new number below
/// `usize::MAX`, a representable day after the reference's finish, and for a
/// child an outline depth below `usize::MAX`.
pub open spec fn can_add_relative(tasks: Seq<TaskSnapshot>, selected_id: usize, child: bool) -> bool {
    match first_index(numbers(tasks), selected_id) {
        Some(j) => {
            &&& max_number(numbers(tasks)) < usize::MAX
            &&& tasks[j].finish@ < MAX_DAY
            &&& child ==> tasks[j].indent < usize::MAX
        },
        None => true,
    }
}

/// Adds a task after the subtree of the selected task (numbered
/// `selected_id`): a child one level deeper or a sibling at its level,
/// numbered one past the largest number, then normalises the project.
/// Returns the new task's number, or `None` (and changes nothing) when no
/// task has the selected number.
pub fn add_task_relative(snapshot: &mut ProjectSnapshot, selected_id: usize, child: bool) -> (r:
    Option<usize>)
    requires
        can_add_relative(old(snapshot).tasks@, selected_id, child),
    ensures
        match first_index(numbers(old(snapshot).tasks@), selected_id) {
            None => r is None && *final(snapshot) == *old(snapshot),
            Some(j) => {
                let ts = old(snapshot).tasks@;
                let id = max_number(numbers(ts)) + 1;
                &&& r == Some(id as usize)
                &&& exists|t: TaskSnapshot|
                    #[trigger] is_added_task(t, id as usize, ts[j], child) && ({
                        let ins = ts.insert(subtree_end(ts, j), t);
                        rolled_up(ins, calendar_dates(ins), final(snapshot).tasks@)
                    })
                &&& bounds_hold(*final(snapshot))
            },
        },
{
    let index = match snapshot.task_index(selected_id) {
        Some(j) => j,
        None => {
            return None;
        },
    };
    let ghost ts = snapshot.tasks@;
    let reference_finish = snapshot.tasks[index].finish;
    let reference_indent = snapshot.tasks[index].indent;
    let end = subtree_end_of(&snapshot.tasks, index);
    let new_id = snapshot.next_task_id();
    let indent = if child {
        reference_indent + 1
    } else {
        reference_indent
    };
    let start = reference_finish.succ();
    let task = TaskSnapshot {
        number: new_id,
        name: if child {
            String::from_str("New child task")
        } else {
            String::from_str("New task")
        },
        start,
        finish: start,
        progress_bits: 0,
        indent,
        summary: false,
        milestone: false,
        predecessors: Vec::new(),
        resource_names: Vec::new(),
        start_text: None,
        finish_text: None,
        duration_text: None,
        notes: None,
        deadline: None,
    };
    assert(is_added_task(task, new_id, ts[index as int], child));
    snapshot.insert_task_after(end - 1, task);
    Some(new_id)
}

/// The numbers of task `j` and of its descendants.
pub open spec fn subtree_numbers(tasks: Seq<TaskSnapshot>, j: int) -> Set<usize> {
    Set::new(|n: usize| exists|k: int| j <= k < subtree_end(tasks, j) && tasks[k].number == n)
}

/// `preds` without the numbers in `deleted`, order kept.
pub open spec fn kept_predecessors(preds: Seq<usize>, deleted: Set<usize>) -> Seq<usize>
    decreases preds.len(),
{
    if preds.len() == 0 {
        Seq::empty()
    } else {
        let rest = kept_predecessors(preds.drop_last(), deleted);
        if deleted.contains(preds.last()) {
            rest
        } else {
            rest.push(preds.last())
        }
    }
}

/// `b` equals `a` in every field but `predecessors`.
pub open spec fn same_but_predecessors(a: TaskSnapshot, b: TaskSnapshot) -> bool {
    TaskSnapshot { predecessors: a.predecessors, ..b } == a
}

/// `after` is `tasks` with every link from a task in `deleted` removed.
pub open spec fn links_pruned(tasks: Seq<TaskSnapshot>, deleted: Set<usize>, after: Seq<TaskSnapshot>) -> bool {
    &&& after.len() == tasks.len()
    &&& forall|i: int|
        0 <= i < tasks.len() ==> same_but_predecessors(tasks[i], #[trigger] after[i])
            && after[i].predecessors@ == kept_predecessors(tasks[i].predecessors@, deleted)
}

/// The selection after deleting the subtree at position `j`: the task
/// before it, else the first task left, else 0.
pub open spec fn selection_after_delete(kept: Seq<TaskSnapshot>, j: int) -> usize {
    if kept.len() == 0 {
        0
    } else if j > 0 {
        kept[j - 1].number
    } else {
        kept[0].number
    }
}

fn remove_links_from(tasks: &mut Vec<TaskSnapshot>, deleted: &HashSet<usize>)
    ensures
        links_pruned(old(tasks)@, deleted@, final(tasks)@),
{
    let ghost ts = tasks@;
    let mut i: usize = 0;
    while i < tasks.len()
        invariant
            i <= tasks.len(),
            tasks.len() == ts.len(),
            forall|k: int|
                0 <= k < i ==> same_but_predecessors(ts[k], #[trigger] tasks@[k])
                    && tasks@[k].predecessors@ == kept_predecessors(ts[k].predecessors@, deleted@),
            forall|k: int| i <= k < tasks.len() ==> #[trigger] tasks@[k] == ts[k],
        decreases tasks.len() - i,
    {
        let mut kept: Vec<usize> = Vec::new();
        let mut m: usize = 0;
        let n = tasks[i].predecessors.len();
        while m < n
            invariant
                m <= n,
                i < tasks.len(),
                tasks@[i as int] == ts[i as int],
                n == ts[i as int].predecessors@.len(),
                kept@ == kept_predecessors(ts[i as int].predecessors@.subrange(0, m as int), deleted@),
            decreases n - m,
        {
            let p = tasks[i].predecessors[m];
            proof {
                let pre = ts[i as int].predecessors@.subrange(0, m + 1);
                assert(pre.drop_last() =~= ts[i as int].predecessors@.subrange(0, m as int));
                assert(pre.last() == p);
            }
            if !deleted.contains(&p) {
                kept.push(p);
            }
            m = m + 1;
        }
        assert(ts[i as int].predecessors@.subrange(0, n as int) =~= ts[i as int].predecessors@);
        tasks[i].predecessors = kept;
        i = i + 1;
    }
}

/// Deletes the selected task (numbered `selected_id`) with its descendants,
/// removes the links from deleted tasks, and normalises the project.
/// Returns the number to select next, or `None` (and changes nothing) when
/// no task has the selected number.
pub fn delete_selected_task(snapshot: &mut ProjectSnapshot, selected_id: usize) -> (r: Option<usize>)
    ensures
        match first_index(numbers(old(snapshot).tasks@), selected_id) {
            None => r is None && *final(snapshot) == *old(snapshot),
            Some(j) => {
                let ts = old(snapshot).tasks@;
                let kept = ts.subrange(0, j) + ts.subrange(subtree_end(ts, j), ts.len() as int);
                &&& r == Some(selection_after_delete(kept, j))
                &&& exists|mid: Seq<TaskSnapshot>, pruned: Seq<TaskSnapshot>|
                    rolled_up(kept, calendar_dates(kept), mid) && #[trigger] links_pruned(
                        mid,
                        subtree_numbers(ts, j),
                        pruned,
                    ) && rolled_up(pruned, calendar_dates(pruned), final(snapshot).tasks@)
                &&& bounds_hold(*final(snapshot))
            },
        },
{
    let index = match snapshot.task_index(selected_id) {
        Some(j) => j,
        None => {
            return None;
        },
    };
    let ghost ts = snapshot.tasks@;
    let ghost kept = ts.subrange(0, index as int) + ts.subrange(
        subtree_end(ts, index as int),
        ts.len() as int,
    );
    let deleted = subtree_task_ids(&snapshot.tasks, index);
    assert(deleted@ =~= subtree_numbers(ts, index as int));
    snapshot.remove_subtree_at(index);
    let ghost mid = snapshot.tasks@;
    remove_links_from(&mut snapshot.tasks, &deleted);
    let ghost pruned = snapshot.tasks@;
    let before = if index > 0 {
        index - 1
    } else {
        0
    };
    let selected = if before < snapshot.tasks.len() {
        snapshot.tasks[before].number
    } else {
        first_task_number(snapshot)
    };
    proof {
        assert(mid.len() == kept.len());
        assert(forall|k: int| 0 <= k < mid.len() ==> crate::model::same_but_dates(kept[k], #[trigger] mid[k]));
        assert(forall|k: int| 0 <= k < pruned.len() ==> same_but_predecessors(mid[k], #[trigger] pruned[k]));
        if kept.len() > 0 {
            assert(same_but_predecessors(mid[before as int], pruned[before as int]));
            assert(crate::model::same_but_dates(kept[before as int], mid[before as int]));
        }
    }
    snapshot.normalize();
    Some(selected)
}

/// `b` equals `a` in every field but `name`.
pub open spec fn same_but_name(a: TaskSnapshot, b: TaskSnapshot) -> bool {
    TaskSnapshot { name: a.name, ..b } == a
}

/// `after` is `tasks` with the first task numbered `id`, if there is one,
/// renamed to `name`.
pub open spec fn renamed(tasks: Seq<TaskSnapshot>, id: usize, name: Seq<char>, after: Seq<TaskSnapshot>) -> bool {
    match first_index(numbers(tasks), id) {
        None => after == tasks,
        Some(j) => {
            &&& after.len() == tasks.len()
            &&& forall|k: int| 0 <= k < tasks.len() && k != j ==> #[trigger] after[k] == tasks[k]
            &&& same_but_name(tasks[j], after[j])
            &&& after[j].name@ == name
        },
    }
}

/// Renames task `task_id` to the trimmed `text` and normalises the project.
pub fn rename_task(snapshot: &mut ProjectSnapshot, task_id: usize, text: &str)
    ensures
        exists|mid: Seq<TaskSnapshot>|
            #[trigger] renamed(old(snapshot).tasks@, task_id, trim_spec(text@), mid) && rolled_up(
                mid,
                calendar_dates(mid),
                final(snapshot).tasks@,
            ),
        bounds_hold(*final(snapshot)),
{
    let ghost ts = snapshot.tasks@;
    match snapshot.task_index(task_id) {
        Some(j) => {
            snapshot.tasks[j].name = trim_string(text);
        },
        None => {},
    }
    let ghost mid = snapshot.tasks@;
    assert(renamed(ts, task_id, trim_spec(text@), mid));
    snapshot.normalize();
}

/// `tasks` with the first task numbered `id`, if there is one, at outline
/// depth `indent`.
pub open spec fn reindented(tasks: Seq<TaskSnapshot>, id: usize, indent: usize) -> Seq<TaskSnapshot> {
    match first_index(numbers(tasks), id) {
        None => tasks,
        Some(j) => tasks.update(j, TaskSnapshot { indent, ..tasks[j] }),
    }
}

/// Sets the outline depth of task `task_id` to the number in the trimmed
/// `text` and normalises the project; a text that is not a `usize` changes
/// nothing. Returns whether the text was a number.
pub fn set_indent_from_text(snapshot: &mut ProjectSnapshot, task_id: usize, text: &str) -> (r: bool)
    ensures
        match usize_parse_spec(trim_spec(text@)) {
            Err(_) => !r && *final(snapshot) == *old(snapshot),
            Ok(v) => {
                let mid = reindented(old(snapshot).tasks@, task_id, v as usize);
                &&& r
                &&& rolled_up(mid, calendar_dates(mid), final(snapshot).tasks@)
                &&& bounds_hold(*final(snapshot))
            },
        },
{
    let trimmed = trim_string(text);
    let indent = match parse_usize(trimmed.as_str()) {
        Ok(v) => v,
        Err(_) => {
            return false;
        },
    };
    match snapshot.task_index(task_id) {
        Some(j) => {
            snapshot.tasks[j].indent = indent;
        },
        None => {},
    }
    snapshot.normalize();
    true
}

/// The pieces that read as a `usize` once trimmed, as numbers, in order;
/// the other pieces are skipped.
pub open spec fn parsed_ids(pieces: Seq<Seq<char>>) -> Seq<usize>
    decreases pieces.len(),
{
    if pieces.len() == 0 {
        Seq::empty()
    } else {
        let rest = parsed_ids(pieces.drop_last());
        match usize_parse_spec(trim_spec(pieces.last())) {
            Ok(v) => rest.push(v as usize),
            Err(_) => rest,
        }
    }
}

/// The numbers in a comma-separated list, skipping pieces that are not
/// numbers.
pub fn parse_id_list(text: &str) -> (r: Vec<usize>)
    ensures
        r@ == parsed_ids(split_on(text@, ',')),
{
    let pieces = split_on_char(text, ',');
    let ghost ps = split_on(text@, ',');
    let mut ids: Vec<usize> = Vec::new();
    let mut i: usize = 0;
    while i < pieces.len()
        invariant
            i <= pieces.len(),
            pieces@.map_values(|p: String| p@) == ps,
            ids@ == parsed_ids(ps.take(i as int)),
        decreases pieces.len() - i,
    {
        assert(ps.take(i + 1).drop_last() =~= ps.take(i as int));
        assert(ps.take(i + 1).last() == pieces@[i as int]@);
        let piece = trim_string(pieces[i].as_str());
        match parse_usize(piece.as_str()) {
            Ok(v) => {
                ids.push(v);
            },
            Err(_) => {},
        }
        i = i + 1;
    }
    assert(ps.take(pieces.len() as int) =~= ps);
    ids
}

/// `after` is `tasks` with the first task numbered `id`, if there is one,
/// given the predecessors `preds`.
pub open spec fn relinked(tasks: Seq<TaskSnapshot>, id: usize, preds: Seq<usize>, after: Seq<TaskSnapshot>) -> bool {
    match first_index(numbers(tasks), id) {
        None => after == tasks,
        Some(j) => {
            &&& after.len() == tasks.len()
            &&& forall|k: int| 0 <= k < tasks.len() && k != j ==> #[trigger] after[k] == tasks[k]
            &&& same_but_predecessors(tasks[j], after[j])
            &&& after[j].predecessors@ == preds
        },
    }
}

/// Sets the predecessors of task `task_id` to the numbers in the
/// comma-separated `text` (pieces that are not numbers are skipped) and
/// normalises the project.
pub fn set_predecessors_from_text(snapshot: &mut ProjectSnapshot, task_id: usize, text: &str)
    ensures
        exists|mid: Seq<TaskSnapshot>|
            #[trigger] relinked(
                old(snapshot).tasks@,
                task_id,
                parsed_ids(split_on(text@, ',')),
                mid,
            ) && rolled_up(mid, calendar_dates(mid), final(snapshot).tasks@),
        bounds_hold(*final(snapshot)),
{
    let ids = parse_id_list(text);
    let ghost ts = snapshot.tasks@;
    match snapshot.task_index(task_id) {
        Some(j) => {
            snapshot.tasks[j].predecessors = ids;
        },
        None => {},
    }
    let ghost mid = snapshot.tasks@;
    assert(relinked(ts, task_id, parsed_ids(split_on(text@, ',')), mid));
    snapshot.normalize();
}

/// The numbers of the summary tasks ("Collapse all").
pub fn summary_numbers(tasks: &Vec<TaskSnapshot>) -> (r: HashSet<usize>)
    ensures
        forall|n: usize|
            r@.contains(n) <==> exists|i: int| 0 <= i < tasks@.len() && tasks@[i].summary
                && tasks@[i].number == n,
{
    let mut out: HashSet<usize> = HashSet::new();
    let mut i: usize = 0;
    while i < tasks.len()
        invariant
            i <= tasks.len(),
            forall|n: usize|
                out@.contains(n) <==> exists|k: int| 0 <= k < i && tasks@[k].summary
                    && tasks@[k].number == n,
        decreases tasks.len() - i,
    {
        if tasks[i].summary {
            out.insert(tasks[i].number);
        }
        proof {
            assert forall|n: usize| out@.contains(n) implies exists|k: int|
                0 <= k < i + 1 && tasks@[k].summary && tasks@[k].number == n by {
                if !(tasks@[i as int].summary && tasks@[i as int].number == n) {
                    let k = choose|k: int| 0 <= k < i && tasks@[k].summary && tasks@[k].number == n;
                    assert(0 <= k < i + 1);
                }
            }
        }
        i = i + 1;
    }
    out
}

proof fn lemma_kept_predecessors_exclude(preds: Seq<usize>, deleted: Set<usize>)
    ensures
        forall|k: int|
            0 <= k < kept_predecessors(preds, deleted).len() ==> !deleted.contains(
                #[trigger] kept_predecessors(preds, deleted)[k],
            ),
    decreases preds.len(),
{
    if preds.len() > 0 {
        lemma_kept_predecessors_exclude(preds.drop_last(), deleted);
        let rest = kept_predecessors(preds.drop_last(), deleted);
        let all = kept_predecessors(preds, deleted);
        assert forall|k: int| 0 <= k < all.len() implies !deleted.contains(#[trigger] all[k]) by {
            if k < rest.len() {
                assert(all[k] == rest[k]);
            }
        }
    }
}

/// After deleting a subtree, no task links to a deleted task: pruning the
/// links from deleted tasks and normalising leaves none.
pub proof fn lemma_no_links_to_deleted_tasks(
    mid: Seq<TaskSnapshot>,
    deleted: Set<usize>,
    pruned: Seq<TaskSnapshot>,
    after: Seq<TaskSnapshot>,
)
    requires
        links_pruned(mid, deleted, pruned),
        rolled_up(pruned, calendar_dates(pruned), after),
    ensures
        forall|i: int, k: int|
            0 <= i < after.len() && 0 <= k < after[i].predecessors@.len() ==> !deleted.contains(
                #[trigger] after[i].predecessors@[k],
            ),
{
    assert forall|i: int, k: int|
        0 <= i < after.len() && 0 <= k < after[i].predecessors@.len() implies !deleted.contains(
        #[trigger] after[i].predecessors@[k],
    ) by {
        assert(crate::model::same_but_dates(pruned[i], after[i]));
        lemma_kept_predecessors_exclude(mid[i].predecessors@, deleted);
    }
}

/// The number given to an added task is used by no other task.
pub proof fn lemma_added_number_is_fresh(tasks: Seq<TaskSnapshot>)
    ensures
        forall|i: int|
            0 <= i < tasks.len() ==> (#[trigger] tasks[i]).number != max_number(numbers(tasks)) + 1,
{
    crate::model::lemma_max_number_bounds(numbers(tasks));
    assert forall|i: int| 0 <= i < tasks.len() implies (#[trigger] tasks[i]).number
        != max_number(numbers(tasks)) + 1 by {
        assert(numbers(tasks)[i] == tasks[i].number);
    }
}

/// The predecessor numbers of a task separated by `sep`.
pub fn predecessors_text(preds: &Vec<usize>, sep: &str) -> (r: String)
    ensures
        r@ == join_spec(preds@.map_values(|p: usize| decimal(p as nat)), sep@),
{
    let mut parts: Vec<String> = Vec::new();
    let mut i: usize = 0;
    while i < preds.len()
        invariant
            i <= preds.len(),
            parts@.map_values(|p: String| p@) == preds@.subrange(0, i as int).map_values(
                |p: usize| decimal(p as nat),
            ),
        decreases preds.len() - i,
    {
        let ghost before = parts@.map_values(|p: String| p@);
        let text = decimal_string(preds[i] as u64);
        assert(text@ == decimal(preds@[i as int] as nat));
        parts.push(text);
        assert(parts@.map_values(|p: String| p@) =~= before.push(text@));
        i = i + 1;
        assert(preds@.subrange(0, i as int) =~= preds@.subrange(0, i - 1).push(preds@[i - 1]));
        assert(parts@.map_values(|p: String| p@) =~= preds@.subrange(0, i as int).map_values(
            |p: usize| decimal(p as nat),
        ));
    }
    assert(preds@.subrange(0, preds.len() as int) =~= preds@);
    join(&parts, sep)
}

} // verus!
