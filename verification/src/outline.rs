//! Outline views of the task list: which rows a collapsed tree shows,
//! subtrees, WBS codes and outline numbers, and the month bands of the
//! timeline header.
use crate::calendar::{civil_month, civil_year, Date, MAX_DAY};
use crate::model::{
    find_task_index, first_index, is_child, numbers, subtree_end, subtree_end_of, TaskSnapshot,
};
use crate::text::{decimal, join, join_spec, push_char, push_signed_decimal, push_str, signed_decimal};
use std::collections::HashSet;
use vstd::prelude::*;

verus! {

broadcast use vstd::std_specs::hash::group_hash_axioms;

/// A row of the task table, pointing at a task by position.
#[derive(Clone, Copy)]
pub struct VisibleTaskRow {
    pub task_index: usize,
}

/// Task `a` is a summary whose number is in the collapsed set.
pub open spec fn collapsed_summary(tasks: Seq<TaskSnapshot>, collapsed: Set<usize>, a: int) -> bool {
    tasks[a].summary && collapsed.contains(tasks[a].number)
}

/// Every task after `a` up to and including `j` is indented deeper than `a`,
/// that is, lies in `a`'s subtree.
pub open spec fn covers(tasks: Seq<TaskSnapshot>, a: int, j: int) -> bool {
    forall|k: int| a < k <= j ==> tasks[k].indent > tasks[a].indent
}

/// A task is hidden when it lies in the subtree of an earlier collapsed summary.
pub open spec fn is_hidden(tasks: Seq<TaskSnapshot>, collapsed: Set<usize>, i: int) -> bool {
    exists|a: int| 0 <= a < i && collapsed_summary(tasks, collapsed, a) && covers(tasks, a, i)
}

/// The rows a tree with the given collapsed summaries shows: exactly the
/// tasks that are not hidden, in outline order.
pub open spec fn shows_exactly(
    tasks: Seq<TaskSnapshot>,
    collapsed: Set<usize>,
    rows: Seq<VisibleTaskRow>,
) -> bool {
    &&& forall|r: int, s: int| 0 <= r < s < rows.len() ==> rows[r].task_index < rows[s].task_index
    &&& forall|r: int| 0 <= r < rows.len() ==> rows[r].task_index < tasks.len()
    &&& forall|r: int| 0 <= r < rows.len() ==> !is_hidden(tasks, collapsed, #[trigger] rows[r].task_index as int)
    &&& forall|i: int|
        0 <= i < tasks.len() && !is_hidden(tasks, collapsed, i) ==> exists|r: int|
            0 <= r < rows.len() && rows[r].task_index == i
}

/// The rows shown for the tasks when the summaries with the given numbers
/// are collapsed.
pub fn build_visible_rows(tasks: &Vec<TaskSnapshot>, collapsed_summaries: &HashSet<usize>) -> (r: Vec<
    VisibleTaskRow,
>)
    ensures
        shows_exactly(tasks@, collapsed_summaries@, r@),
{
    let ghost ts = tasks@;
    let ghost col = collapsed_summaries@;
    let mut rows: Vec<VisibleTaskRow> = Vec::new();
    let mut hidden_until_indent: Option<usize> = None;
    let mut i: usize = 0;
    while i < tasks.len()
        invariant
            i <= tasks.len(),
            ts == tasks@,
            col == collapsed_summaries@,
            forall|r: int, s: int| 0 <= r < s < rows.len() ==> rows@[r].task_index < rows@[s].task_index,
            forall|r: int| 0 <= r < rows.len() ==> rows@[r].task_index < i,
            forall|r: int| 0 <= r < rows.len() ==> !is_hidden(ts, col, #[trigger] rows@[r].task_index as int),
            forall|k: int|
                0 <= k < i && !is_hidden(ts, col, k) ==> exists|r: int|
                    0 <= r < rows.len() && rows@[r].task_index == k,
            hidden_until_indent is None ==> forall|a: int|
                0 <= a < i ==> !(collapsed_summary(ts, col, a) && covers(ts, a, i - 1)),
            hidden_until_indent matches Some(h) ==> exists|a0: int|
                0 <= a0 < i && collapsed_summary(ts, col, a0) && covers(ts, a0, i - 1) && ts[a0].indent
                    == h && forall|a: int|
                    0 <= a < a0 ==> !(collapsed_summary(ts, col, a) && covers(ts, a, i - 1)),
        decreases tasks.len() - i,
    {
        let task = &tasks[i];
        let skip = match hidden_until_indent {
            Some(h) => task.indent > h,
            None => false,
        };
        if skip {
            proof {
                let h = hidden_until_indent.unwrap();
                let a0 = choose|a0: int|
                    0 <= a0 < i && collapsed_summary(ts, col, a0) && covers(ts, a0, i - 1)
                        && ts[a0].indent == h && forall|a: int|
                        0 <= a < a0 ==> !(collapsed_summary(ts, col, a) && covers(ts, a, i - 1));
                assert(covers(ts, a0, i as int));
                assert(is_hidden(ts, col, i as int));
                assert forall|a: int| 0 <= a < a0 implies !(collapsed_summary(ts, col, a) && covers(
                    ts,
                    a,
                    i as int,
                )) by {
                    if covers(ts, a, i as int) {
                        assert(covers(ts, a, i - 1));
                    }
                }
            }
        } else {
            proof {
                assert forall|a: int| 0 <= a < i implies !(collapsed_summary(ts, col, a) && covers(
                    ts,
                    a,
                    i as int,
                )) by {
                    if collapsed_summary(ts, col, a) && covers(ts, a, i as int) {
                        assert(covers(ts, a, i - 1));
                        if let Some(h) = hidden_until_indent {
                            let a0 = choose|a0: int|
                                0 <= a0 < i && collapsed_summary(ts, col, a0) && covers(ts, a0, i - 1)
                                    && ts[a0].indent == h && forall|b: int|
                                    0 <= b < a0 ==> !(collapsed_summary(ts, col, b) && covers(
                                        ts,
                                        b,
                                        i - 1,
                                    ));
                            if a > a0 {
                                assert(ts[a].indent > ts[a0].indent);
                            }
                        }
                    }
                }
                assert(!is_hidden(ts, col, i as int));
            }
            let ghost old_rows = rows@;
            rows.push(VisibleTaskRow { task_index: i });
            let collapsed_here = task.summary && collapsed_summaries.contains(&task.number);
            if collapsed_here {
                hidden_until_indent = Some(task.indent);
            } else {
                hidden_until_indent = None;
            }
            proof {
                assert(rows@[rows.len() - 1].task_index == i);
                assert(collapsed_here == collapsed_summary(ts, col, i as int));
                assert(covers(ts, i as int, i as int));
                assert forall|k: int|
                    0 <= k < i + 1 && !is_hidden(ts, col, k) implies exists|r: int|
                        0 <= r < rows.len() && rows@[r].task_index == k by {
                    if k < i {
                        let r = choose|r: int| 0 <= r < old_rows.len() && old_rows[r].task_index == k;
                        assert(rows@[r] == old_rows[r]);
                    } else {
                        assert(rows@[rows.len() - 1].task_index == k);
                    }
                }
            }
        }
        i = i + 1;
    }
    rows
}

/// Position of the last descendant of task `index` (the task itself when it
/// has none).
pub fn subtree_end_index(tasks: &Vec<TaskSnapshot>, index: usize) -> (r: usize)
    requires
        index < tasks.len(),
    ensures
        r == subtree_end(tasks@, index as int) - 1,
{
    subtree_end_of(tasks, index) - 1
}

/// The numbers of task `index` and of all its descendants.
pub fn subtree_task_ids(tasks: &Vec<TaskSnapshot>, index: usize) -> (r: HashSet<usize>)
    requires
        index < tasks.len(),
    ensures
        forall|n: usize|
            r@.contains(n) <==> exists|k: int|
                index <= k < subtree_end(tasks@, index as int) && tasks@[k].number == n,
{
    let end = subtree_end_of(tasks, index);
    let mut ids: HashSet<usize> = HashSet::new();
    let mut k = index;
    while k < end
        invariant
            index <= k <= end,
            end == subtree_end(tasks@, index as int),
            end <= tasks.len(),
            forall|n: usize|
                ids@.contains(n) <==> exists|j: int| index <= j < k && tasks@[j].number == n,
        decreases end - k,
    {
        ids.insert(tasks[k].number);
        proof {
            assert forall|n: usize| ids@.contains(n) implies exists|j: int|
                index <= j < k + 1 && tasks@[j].number == n by {
                if n != tasks@[k as int].number {
                    let j = choose|j: int| index <= j < k && tasks@[j].number == n;
                    assert(index <= j < k + 1);
                }
            }
        }
        k = k + 1;
    }
    ids
}

/// The number of tasks at depth `m` since the last task shallower than `m`,
/// counting positions up to `j`.
pub open spec fn level_run(tasks: Seq<TaskSnapshot>, m: int, j: int) -> int
    decreases j + 1,
{
    if j < 0 || j >= tasks.len() {
        0
    } else if tasks[j].indent < m {
        0
    } else {
        level_run(tasks, m, j - 1) + if tasks[j].indent == m {
            1int
        } else {
            0int
        }
    }
}

proof fn lemma_level_run_bounds(tasks: Seq<TaskSnapshot>, m: int, j: int)
    requires
        -1 <= j < tasks.len(),
    ensures
        0 <= level_run(tasks, m, j) <= j + 1,
    decreases j + 1,
{
    if j >= 0 {
        lemma_level_run_bounds(tasks, m, j - 1);
    }
}

/// The WBS code of task `i`: at each depth up to its own, the position among
/// its siblings, joined with `.`.
pub open spec fn wbs_code(tasks: Seq<TaskSnapshot>, i: int) -> Seq<char> {
    join_spec(
        Seq::new(
            (tasks[i].indent + 1) as nat,
            |m: int| decimal(level_run(tasks, m, i) as nat),
        ),
        "."@,
    )
}

/// The outline number of task `i`: like the WBS code, leaving out depths
/// whose count is zero.
pub open spec fn outline_number(tasks: Seq<TaskSnapshot>, i: int) -> Seq<char> {
    join_spec(nonzero_parts(tasks, i, tasks[i].indent + 1), "."@)
}

/// The decimal counts at depths below `upto` for task `i`, skipping zeros.
pub open spec fn nonzero_parts(tasks: Seq<TaskSnapshot>, i: int, upto: int) -> Seq<Seq<char>>
    decreases upto,
{
    if upto <= 0 {
        Seq::empty()
    } else {
        let rest = nonzero_parts(tasks, i, upto - 1);
        let c = level_run(tasks, upto - 1, i);
        if c > 0 {
            rest.push(decimal(c as nat))
        } else {
            rest
        }
    }
}

/// Sibling counters after a task at depth `level`, from those before it.
fn advance_counters(
    counts: &mut Vec<usize>,
    level: usize,
    Ghost(tasks): Ghost<Seq<TaskSnapshot>>,
    Ghost(i): Ghost<int>,
)
    requires
        0 <= i < tasks.len(),
        tasks[i].indent == level,
        level < usize::MAX,
        tasks.len() <= usize::MAX,
        forall|m: int| 0 <= m < old(counts).len() ==> old(counts)@[m] == level_run(tasks, m, i - 1),
        i > 0 ==> old(counts).len() == tasks[i - 1].indent + 1,
        i == 0 ==> old(counts).len() == 0,
    ensures
        final(counts).len() == level + 1,
        forall|m: int| 0 <= m <= level ==> final(counts)@[m] == level_run(tasks, m, i),
{
    proof {
        assert forall|m: int| old(counts).len() <= m implies #[trigger] level_run(tasks, m, i - 1) == 0 by {
            if i > 0 {
                assert(tasks[i - 1].indent < m);
            }
        }
    }
    if counts.len() <= level {
        while counts.len() <= level
            invariant
                level < usize::MAX,
                counts.len() <= level + 1,
                forall|m: int| 0 <= m < counts.len() ==> counts@[m] == level_run(tasks, m, i - 1),
                forall|m: int| old(counts).len() <= m ==> #[trigger] level_run(tasks, m, i - 1) == 0,
                old(counts).len() <= counts.len(),
            decreases level + 1 - counts.len(),
        {
            counts.push(0);
        }
    } else {
        counts.truncate(level + 1);
    }
    proof {
        lemma_level_run_bounds(tasks, level as int, i - 1);
        assert forall|m: int| 0 <= m <= level implies #[trigger] level_run(tasks, m, i) == level_run(tasks, m, i - 1)
            + if m == level {
            1int
        } else {
            0int
        } by {}
    }
    counts.set(level, counts[level] + 1);
}

/// The WBS code of every task, in order.
pub fn build_wbs_codes(tasks: &Vec<TaskSnapshot>) -> (r: Vec<String>)
    requires
        forall|i: int| 0 <= i < tasks.len() ==> tasks@[i].indent < usize::MAX,
    ensures
        r.len() == tasks.len(),
        forall|i: int| 0 <= i < tasks.len() ==> (#[trigger] r@[i])@ == wbs_code(tasks@, i),
{
    let mut codes: Vec<String> = Vec::new();
    let mut counts: Vec<usize> = Vec::new();
    let mut i: usize = 0;
    while i < tasks.len()
        invariant
            i <= tasks.len(),
            codes.len() == i,
            forall|i: int| 0 <= i < tasks.len() ==> tasks@[i].indent < usize::MAX,
            forall|k: int| 0 <= k < i ==> (#[trigger] codes@[k])@ == wbs_code(tasks@, k),
            forall|m: int| 0 <= m < counts.len() ==> counts@[m] == level_run(tasks@, m, i - 1),
            i > 0 ==> counts.len() == tasks@[i - 1].indent + 1,
            i == 0 ==> counts.len() == 0,
        decreases tasks.len() - i,
    {
        let level = tasks[i].indent;
        advance_counters(&mut counts, level, Ghost(tasks@), Ghost(i as int));
        let mut parts: Vec<String> = Vec::new();
        let mut m: usize = 0;
        while m <= level
            invariant
                m <= level + 1,
                level < usize::MAX,
                counts.len() == level + 1,
                parts.len() == m,
                forall|j: int| 0 <= j < m ==> (#[trigger] parts@[j])@ == decimal(
                    level_run(tasks@, j, i as int) as nat,
                ),
                forall|j: int| 0 <= j <= level ==> counts@[j] == level_run(tasks@, j, i as int),
            decreases level + 1 - m,
        {
            parts.push(crate::text::decimal_string(counts[m] as u64));
            m = m + 1;
        }
        let code = join(&parts, ".");
        proof {
            assert(parts@.map_values(|p: String| p@) =~= Seq::new(
                (tasks@[i as int].indent + 1) as nat,
                |m: int| decimal(level_run(tasks@, m, i as int) as nat),
            ));
        }
        codes.push(code);
        i = i + 1;
    }
    codes
}

/// The outline number of every task, in order.
pub fn outline_numbers(tasks: &Vec<TaskSnapshot>) -> (r: Vec<String>)
    requires
        forall|i: int| 0 <= i < tasks.len() ==> tasks@[i].indent < usize::MAX,
    ensures
        r.len() == tasks.len(),
        forall|i: int| 0 <= i < tasks.len() ==> (#[trigger] r@[i])@ == outline_number(tasks@, i),
{
    let mut result: Vec<String> = Vec::new();
    let mut counts: Vec<usize> = Vec::new();
    let mut i: usize = 0;
    while i < tasks.len()
        invariant
            i <= tasks.len(),
            result.len() == i,
            forall|i: int| 0 <= i < tasks.len() ==> tasks@[i].indent < usize::MAX,
            forall|k: int| 0 <= k < i ==> (#[trigger] result@[k])@ == outline_number(tasks@, k),
            forall|m: int| 0 <= m < counts.len() ==> counts@[m] == level_run(tasks@, m, i - 1),
            i > 0 ==> counts.len() == tasks@[i - 1].indent + 1,
            i == 0 ==> counts.len() == 0,
        decreases tasks.len() - i,
    {
        let level = tasks[i].indent;
        advance_counters(&mut counts, level, Ghost(tasks@), Ghost(i as int));
        let mut parts: Vec<String> = Vec::new();
        let mut m: usize = 0;
        while m <= level
            invariant
                m <= level + 1,
                level < usize::MAX,
                counts.len() == level + 1,
                parts@.map_values(|p: String| p@) == nonzero_parts(tasks@, i as int, m as int),
                forall|j: int| 0 <= j <= level ==> counts@[j] == level_run(tasks@, j, i as int),
            decreases level + 1 - m,
        {
            let ghost before = parts@;
            if counts[m] > 0 {
                parts.push(crate::text::decimal_string(counts[m] as u64));
                assert(parts@.map_values(|p: String| p@) =~= before.map_values(|p: String| p@).push(
                    decimal(counts[m as int] as nat),
                ));
            }
            m = m + 1;
        }
        let code = join(&parts, ".");
        result.push(code);
        i = i + 1;
    }
    result
}

/// The English three-letter abbreviation of a month (1..=12), empty otherwise.
pub open spec fn month_abbrev(month: int) -> Seq<char> {
    if month == 1 {
        "Jan"@
    } else if month == 2 {
        "Feb"@
    } else if month == 3 {
        "Mar"@
    } else if month == 4 {
        "Apr"@
    } else if month == 5 {
        "May"@
    } else if month == 6 {
        "Jun"@
    } else if month == 7 {
        "Jul"@
    } else if month == 8 {
        "Aug"@
    } else if month == 9 {
        "Sep"@
    } else if month == 10 {
        "Oct"@
    } else if month == 11 {
        "Nov"@
    } else if month == 12 {
        "Dec"@
    } else {
        ""@
    }
}

/// The three-letter abbreviation of a month.
pub fn month_label(month: u32) -> (r: &'static str)
    ensures
        r@ == month_abbrev(month as int),
{
    match month {
        1 => "Jan",
        2 => "Feb",
        3 => "Mar",
        4 => "Apr",
        5 => "May",
        6 => "Jun",
        7 => "Jul",
        8 => "Aug",
        9 => "Sep",
        10 => "Oct",
        11 => "Nov",
        12 => "Dec",
        _ => "",
    }
}

/// The header label of a month band, such as `Feb 2025`.
pub open spec fn month_band_label(day: int) -> Seq<char> {
    month_abbrev(civil_month(day)) + " "@ + signed_decimal(civil_year(day))
}

/// One month band ending no later than `end`: its days share a month, it
/// stops at `end` or at a change of month, and its label names its month and
/// year.
pub open spec fn band_ok(span: (String, Date, Date), end: int) -> bool {
    &&& span.1@ <= span.2@
    &&& forall|d: int| span.1@ <= d <= span.2@ ==> #[trigger] civil_month(d) == civil_month(span.1@)
    &&& span.2@ == end || civil_month(span.2@ + 1) != civil_month(span.1@)
    &&& span.0@ == month_band_label(span.1@)
}

/// `spans` splits `[start, end]` into consecutive maximal runs of days in the
/// same month, in order, each labelled with its month and year.
pub open spec fn month_bands(start: int, end: int, spans: Seq<(String, Date, Date)>) -> bool {
    &&& start > end ==> spans.len() == 0
    &&& start <= end ==> spans.len() > 0 && spans[0].1@ == start && spans.last().2@ == end
    &&& forall|k: int| 0 <= k < spans.len() - 1 ==> (#[trigger] spans[k]).2@ + 1 == spans[k + 1].1@
    &&& forall|k: int| 0 <= k < spans.len() ==> band_ok(#[trigger] spans[k], end)
}

/// The last day of the month band that begins at `month_start`, not past `end`.
fn month_band_end(month_start: Date, end: Date) -> (r: Date)
    requires
        month_start@ <= end@ < MAX_DAY,
    ensures
        month_start@ <= r@ <= end@,
        forall|d: int| month_start@ <= d <= r@ ==> #[trigger] civil_month(d) == civil_month(month_start@),
        r@ == end@ || civil_month(r@ + 1) != civil_month(month_start@),
{
    let month = month_start.month();
    let mut month_end = month_start;
    while month_end.lt(&end) && month_end.succ().month() == month
        invariant
            month_start@ <= month_end@ <= end@,
            end@ < MAX_DAY,
            month == civil_month(month_start@),
            forall|d: int| month_start@ <= d <= month_end@ ==> #[trigger] civil_month(d) == month,
        decreases end@ - month_end@,
    {
        month_end = month_end.succ();
    }
    month_end
}

/// The header label of the month band starting on `day`.
fn band_label(day: Date) -> (r: String)
    ensures
        r@ == month_band_label(day@),
{
    let mut label = String::new();
    push_str(&mut label, month_label(day.month()));
    push_str(&mut label, " ");
    push_signed_decimal(&mut label, day.year() as i64);
    assert(label@ =~= month_band_label(day@));
    label
}

/// Splits the days from `start` to `end` into month bands for the timeline
/// header.
pub fn month_spans(start: Date, end: Date) -> (r: Vec<(String, Date, Date)>)
    requires
        start@ > end@ || end@ < MAX_DAY,
    ensures
        month_bands(start@, end@, r@),
{
    let mut spans: Vec<(String, Date, Date)> = Vec::new();
    let mut cursor = start;
    if end.lt(&start) {
        return spans;
    }
    while cursor.le(&end)
        invariant
            start@ <= cursor@ <= end@ + 1,
            end@ < MAX_DAY,
            spans.len() == 0 <==> cursor@ == start@,
            spans.len() > 0 ==> spans@[0].1@ == start@ && spans@.last().2@ + 1 == cursor@,
            forall|k: int| 0 <= k < spans.len() - 1 ==> (#[trigger] spans@[k]).2@ + 1 == spans@[k + 1].1@,
            forall|k: int| 0 <= k < spans.len() ==> band_ok(#[trigger] spans@[k], end@),
        decreases end@ + 1 - cursor@,
    {
        let month_end = month_band_end(cursor, end);
        let label = band_label(cursor);
        let ghost old_spans = spans@;
        spans.push((label, cursor, month_end));
        proof {
            assert forall|k: int| 0 <= k < old_spans.len() implies #[trigger] spans@[k] == old_spans[k] by {}
        }
        cursor = month_end.succ();
    }
    spans
}

/// A dependency line to draw: from the task at `from_index`, shown in row
/// `from_row`, to the task at `to_index`, shown in row `to_row`. A task's
/// predecessors are task numbers, so every line runs finish to start.
#[derive(Clone, Copy, Debug, PartialEq, Eq)]
pub struct LinkSegment {
    pub from_index: usize,
    pub from_row: usize,
    pub to_index: usize,
    pub to_row: usize,
}

/// The last of the first `n` rows that shows task `i`.
pub open spec fn row_showing(rows: Seq<VisibleTaskRow>, i: int, n: int) -> Option<int>
    decreases n,
{
    if n <= 0 {
        None
    } else if rows[n - 1].task_index == i {
        Some(n - 1)
    } else {
        row_showing(rows, i, n - 1)
    }
}

/// The lines into task `i` from its predecessors `preds`, in order: one for
/// each predecessor number that some task has (the first such task) when
/// both tasks are shown.
pub open spec fn links_into(
    tasks: Seq<TaskSnapshot>,
    rows: Seq<VisibleTaskRow>,
    i: int,
    preds: Seq<usize>,
) -> Seq<LinkSegment>
    decreases preds.len(),
{
    if preds.len() == 0 {
        Seq::empty()
    } else {
        let rest = links_into(tasks, rows, i, preds.drop_last());
        match first_index(numbers(tasks), preds.last()) {
            None => rest,
            Some(f) => match row_showing(rows, f, rows.len() as int) {
                None => rest,
                Some(rf) => match row_showing(rows, i, rows.len() as int) {
                    None => rest,
                    Some(rt) => rest.push(
                        LinkSegment {
                            from_index: f as usize,
                            from_row: rf as usize,
                            to_index: i as usize,
                            to_row: rt as usize,
                        },
                    ),
                },
            },
        }
    }
}

/// The lines into the first `n` tasks, task by task.
pub open spec fn visible_links_spec(tasks: Seq<TaskSnapshot>, rows: Seq<VisibleTaskRow>, n: int) -> Seq<
    LinkSegment,
>
    decreases n,
{
    if n <= 0 {
        Seq::empty()
    } else {
        visible_links_spec(tasks, rows, n - 1) + links_into(
            tasks,
            rows,
            n - 1,
            tasks[n - 1].predecessors@,
        )
    }
}

fn row_positions(task_count: usize, rows: &Vec<VisibleTaskRow>) -> (r: Vec<Option<usize>>)
    ensures
        r.len() == task_count,
        forall|i: int|
            0 <= i < task_count ==> match row_showing(rows@, i, rows.len() as int) {
                Some(k) => #[trigger] r@[i] == Some(k as usize),
                None => r@[i] is None,
            },
{
    let mut pos: Vec<Option<usize>> = Vec::new();
    let mut i: usize = 0;
    while i < task_count
        invariant
            i <= task_count,
            pos.len() == i,
            forall|k: int| 0 <= k < i ==> pos@[k] is None,
        decreases task_count - i,
    {
        pos.push(None);
        i = i + 1;
    }
    let mut r: usize = 0;
    while r < rows.len()
        invariant
            r <= rows.len(),
            pos.len() == task_count,
            forall|k: int|
                0 <= k < task_count ==> match row_showing(rows@, k, r as int) {
                    Some(x) => #[trigger] pos@[k] == Some(x as usize),
                    None => pos@[k] is None,
                },
        decreases rows.len() - r,
    {
        let t = rows[r].task_index;
        if t < task_count {
            pos.set(t, Some(r));
        }
        r = r + 1;
    }
    pos
}

/// The dependency lines to draw, task by task and, for each task, in the
/// order of its predecessors (see [`links_into`]).
pub fn visible_links(tasks: &Vec<TaskSnapshot>, rows: &Vec<VisibleTaskRow>) -> (r: Vec<LinkSegment>)
    ensures
        r@ == visible_links_spec(tasks@, rows@, tasks.len() as int),
{
    let pos = row_positions(tasks.len(), rows);
    let mut out: Vec<LinkSegment> = Vec::new();
    let mut i: usize = 0;
    while i < tasks.len()
        invariant
            i <= tasks.len(),
            pos.len() == tasks.len(),
            forall|k: int|
                0 <= k < tasks.len() ==> match row_showing(rows@, k, rows.len() as int) {
                    Some(x) => #[trigger] pos@[k] == Some(x as usize),
                    None => pos@[k] is None,
                },
            out@ == visible_links_spec(tasks@, rows@, i as int),
        decreases tasks.len() - i,
    {
        let ghost base = out@;
        let preds = &tasks[i].predecessors;
        let mut k: usize = 0;
        while k < preds.len()
            invariant
                i < tasks.len(),
                preds == &tasks@[i as int].predecessors,
                k <= preds.len(),
                pos.len() == tasks.len(),
                forall|j: int|
                    0 <= j < tasks.len() ==> match row_showing(rows@, j, rows.len() as int) {
                        Some(x) => #[trigger] pos@[j] == Some(x as usize),
                        None => pos@[j] is None,
                    },
                out@ == base + links_into(tasks@, rows@, i as int, preds@.take(k as int)),
            decreases preds.len() - k,
        {
            let ghost pre = preds@.take(k + 1);
            assert(pre.drop_last() =~= preds@.take(k as int));
            assert(pre.last() == preds@[k as int]);
            let ghost before = out@;
            match find_task_index(tasks, preds[k]) {
                None => {},
                Some(f) => {
                    let rf = pos[f];
                    let rt = pos[i];
                    match rf {
                        None => {},
                        Some(from_row) => match rt {
                            None => {},
                            Some(to_row) => {
                                out.push(LinkSegment { from_index: f, from_row, to_index: i, to_row });
                                assert(out@ =~= before.push(
                                    LinkSegment { from_index: f, from_row, to_index: i, to_row },
                                ));
                            },
                        },
                    }
                },
            }
            k = k + 1;
        }
        assert(preds@.take(preds.len() as int) =~= preds@);
        i = i + 1;
    }
    out
}

/// The positions of the direct children of task `index`, in order.
pub fn direct_children(tasks: &Vec<TaskSnapshot>, index: usize) -> (r: Vec<usize>)
    requires
        index < tasks.len(),
    ensures
        forall|k: int, m: int| 0 <= k < m < r@.len() ==> r@[k] < r@[m],
        forall|k: int| 0 <= k < r@.len() ==> is_child(tasks@, index as int, #[trigger] r@[k] as int),
        forall|c: int| is_child(tasks@, index as int, c) ==> exists|k: int| 0 <= k < r@.len() && r@[k] == c,
{
    let end = subtree_end_of(tasks, index);
    let indent = tasks[index].indent;
    let mut out: Vec<usize> = Vec::new();
    let mut c = index + 1;
    while c < end
        invariant
            index < c <= end,
            end <= tasks.len(),
            end == subtree_end(tasks@, index as int),
            indent == tasks@[index as int].indent,
            forall|k: int| index < k < end ==> tasks@[k].indent > indent,
            forall|k: int, m: int| 0 <= k < m < out@.len() ==> out@[k] < out@[m],
            forall|k: int| 0 <= k < out@.len() ==> index < #[trigger] out@[k] < c,
            forall|k: int| 0 <= k < out@.len() ==> is_child(tasks@, index as int, #[trigger] out@[k] as int),
            forall|x: int|
                index < x < c && is_child(tasks@, index as int, x) ==> exists|k: int|
                    0 <= k < out@.len() && out@[k] == x,
        decreases end - c,
    {
        let ghost old_out = out@;
        if tasks[c].indent == indent + 1 {
            out.push(c);
            assert(is_child(tasks@, index as int, c as int));
        }
        proof {
            assert forall|x: int|
                index < x < c + 1 && is_child(tasks@, index as int, x) implies exists|k: int|
                0 <= k < out@.len() && out@[k] == x by {
                if x == c {
                    assert(out@[out@.len() - 1] == c);
                } else {
                    let k = choose|k: int| 0 <= k < old_out.len() && old_out[k] == x;
                    assert(out@[k] == x);
                }
            }
        }
        c = c + 1;
    }
    proof {
        assert forall|x: int| is_child(tasks@, index as int, x) implies exists|k: int|
            0 <= k < out@.len() && out@[k] == x by {
            if x >= end {
                crate::model::lemma_subtree_end_stops(tasks@, index as int);
                assert(tasks@[end as int].indent <= indent);
            }
        }
    }
    out
}

} // verus!
