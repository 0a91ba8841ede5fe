//! The project data model: tasks in outline order with their dates,
//! hierarchy, dependencies and display texts, and the project that holds
//! them.
use crate::calendar::{
    count_working, days_from_civil, formatted_date, working_days_inclusive, Date, MAX_DAY, MIN_DAY,
};
use crate::text::{
    all_space, decimal, is_blank, join, join_spec, push_signed_decimal, push_str, trim_spec,
};
use vstd::prelude::*;

verus! {

/// One row of the plan.
///
/// `progress_bits` holds the IEEE-754 bit pattern of the completed fraction
/// (an `f32`, nominally between 0 and 1); the library carries it with the
/// task and leaves arithmetic on it to the caller.
#[derive(Clone)]
pub struct TaskSnapshot {
    pub number: usize,
    pub name: String,
    pub start: Date,
    pub finish: Date,
    pub progress_bits: u32,
    pub indent: usize,
    pub summary: bool,
    pub milestone: bool,
    pub predecessors: Vec<usize>,
    pub resource_names: Vec<String>,
    pub start_text: Option<String>,
    pub finish_text: Option<String>,
    pub duration_text: Option<String>,
    pub notes: Option<String>,
    pub deadline: Option<Date>,
}

/// A project: its date range and its tasks in outline order.
#[derive(Clone)]
pub struct ProjectSnapshot {
    pub start_date: Date,
    pub end_date: Date,
    pub tasks: Vec<TaskSnapshot>,
}

/// The task numbers in outline order.
pub open spec fn numbers(tasks: Seq<TaskSnapshot>) -> Seq<usize> {
    tasks.map_values(|t: TaskSnapshot| t.number)
}

/// `j` is the first position holding `id`.
pub open spec fn is_first_index(nums: Seq<usize>, id: usize, j: int) -> bool {
    &&& 0 <= j < nums.len()
    &&& nums[j] == id
    &&& forall|k: int| 0 <= k < j ==> nums[k] != id
}

/// The first position holding `id`, if any.
pub open spec fn first_index(nums: Seq<usize>, id: usize) -> Option<int> {
    if exists|j: int| is_first_index(nums, id, j) {
        Some(choose|j: int| is_first_index(nums, id, j))
    } else {
        None
    }
}

/// Only one position can be the first holding a value.
pub proof fn lemma_first_index_unique(nums: Seq<usize>, id: usize, j: int)
    requires
        is_first_index(nums, id, j),
    ensures
        first_index(nums, id) == Some(j),
{
    let c = choose|c: int| is_first_index(nums, id, c);
    assert(is_first_index(nums, id, c));
    if c < j {
        assert(nums[c] != id);
    } else if c > j {
        assert(nums[j] != id);
    }
}

/// No position holds `id`.
pub proof fn lemma_first_index_none(nums: Seq<usize>, id: usize)
    requires
        forall|k: int| 0 <= k < nums.len() ==> nums[k] != id,
    ensures
        first_index(nums, id) is None,
{
}

/// The largest task number, 0 when there are none.
pub open spec fn max_number(nums: Seq<usize>) -> int
    decreases nums.len(),
{
    if nums.len() == 0 {
        0
    } else {
        let m = max_number(nums.drop_last());
        if nums.last() > m {
            nums.last() as int
        } else {
            m
        }
    }
}

/// Every number is at most the largest one.
pub proof fn lemma_max_number_bounds(nums: Seq<usize>)
    ensures
        forall|i: int| 0 <= i < nums.len() ==> nums[i] <= max_number(nums),
        max_number(nums) >= 0,
    decreases nums.len(),
{
    if nums.len() > 0 {
        lemma_max_number_bounds(nums.drop_last());
        assert forall|i: int| 0 <= i < nums.len() implies nums[i] <= max_number(nums) by {
            if i < nums.len() - 1 {
                assert(nums[i] == nums.drop_last()[i]);
            }
        }
    }
}

/// `b` equals `a` in every field but `start` and `finish`.
pub open spec fn same_but_dates(a: TaskSnapshot, b: TaskSnapshot) -> bool {
    TaskSnapshot { start: a.start, finish: a.finish, ..b } == a
}

/// The `(start, finish)` day numbers of each task.
pub open spec fn dates_of(tasks: Seq<TaskSnapshot>) -> Seq<(int, int)> {
    Seq::new(tasks.len(), |i: int| (tasks[i].start@, tasks[i].finish@))
}

/// The end of the subtree rooted at `i`, scanning from `e`: the first position
/// at or after `e` that is past the end or no deeper than `i`.
pub open spec fn subtree_end_from(tasks: Seq<TaskSnapshot>, i: int, e: int) -> int
    decreases tasks.len() - e,
{
    if e >= tasks.len() || tasks[e].indent <= tasks[i].indent {
        e
    } else {
        subtree_end_from(tasks, i, e + 1)
    }
}

/// One past the last descendant of task `i` (descendants follow a task and
/// are indented deeper than it).
pub open spec fn subtree_end(tasks: Seq<TaskSnapshot>, i: int) -> int {
    subtree_end_from(tasks, i, i + 1)
}


proof fn lemma_subtree_end_from_stops(tasks: Seq<TaskSnapshot>, i: int, e: int)
    requires
        0 <= i < tasks.len(),
        i < e <= tasks.len(),
    ensures
        e <= subtree_end_from(tasks, i, e) <= tasks.len(),
        subtree_end_from(tasks, i, e) < tasks.len() ==> tasks[subtree_end_from(tasks, i, e)].indent
            <= tasks[i].indent,
    decreases tasks.len() - e,
{
    if e < tasks.len() && tasks[e].indent > tasks[i].indent {
        lemma_subtree_end_from_stops(tasks, i, e + 1);
    }
}

/// The subtree of task `i` ends at the end of the list or at the first
/// later task that is no deeper than `i`.
pub proof fn lemma_subtree_end_stops(tasks: Seq<TaskSnapshot>, i: int)
    requires
        0 <= i < tasks.len(),
    ensures
        i < subtree_end(tasks, i) <= tasks.len(),
        subtree_end(tasks, i) < tasks.len() ==> tasks[subtree_end(tasks, i)].indent
            <= tasks[i].indent,
{
    lemma_subtree_end_from_stops(tasks, i, i + 1);
}

/// Task `c` is a direct child of task `i`: it lies inside `i`'s subtree one
/// level deeper.
pub open spec fn is_child(tasks: Seq<TaskSnapshot>, i: int, c: int) -> bool {
    &&& 0 <= i < c < tasks.len()
    &&& tasks[c].indent == tasks[i].indent + 1
    &&& forall|k: int| i < k <= c ==> tasks[k].indent > tasks[i].indent
}

/// Working days of a task: 0 for a milestone, otherwise the working days from
/// start to finish inclusive.
pub open spec fn duration_days_spec(t: TaskSnapshot) -> int {
    if t.milestone {
        0
    } else {
        count_working(t.start@, t.finish@) as int
    }
}

/// Counting the working days of a task stays within representable dates.
pub open spec fn duration_defined(t: TaskSnapshot) -> bool {
    t.milestone || t.start@ > t.finish@ || t.finish@ < MAX_DAY
}

/// Whether an optional display text is present and not blank.
pub open spec fn has_text(t: Option<String>) -> bool {
    t matches Some(v) && !all_space(v@)
}

/// Start column text: the stored text when present and not blank, else the
/// start date as `YYYY/MM/DD 8:00`.
pub open spec fn start_label_spec(t: TaskSnapshot) -> Seq<char> {
    if has_text(t.start_text) {
        t.start_text.unwrap()@
    } else {
        formatted_date(t.start@, "%Y/%m/%d"@) + " 8:00"@
    }
}

/// Finish column text: the stored text when present and not blank, else the
/// finish date as `YYYY/MM/DD 17:00`.
pub open spec fn finish_label_spec(t: TaskSnapshot) -> Seq<char> {
    if has_text(t.finish_text) {
        t.finish_text.unwrap()@
    } else {
        formatted_date(t.finish@, "%Y/%m/%d"@) + " 17:00"@
    }
}

/// Duration column text: the stored text when present and not blank, else
/// `0 days` for a milestone, `1 day`, or `N days`.
pub open spec fn duration_label_spec(t: TaskSnapshot) -> Seq<char> {
    if has_text(t.duration_text) {
        t.duration_text.unwrap()@
    } else if t.milestone {
        "0 days"@
    } else if duration_days_spec(t) == 1 {
        "1 day"@
    } else {
        decimal(duration_days_spec(t) as nat) + " days"@
    }
}

/// Resource column text: the resource names separated by `, `.
pub open spec fn resource_names_label_spec(t: TaskSnapshot) -> Seq<char> {
    join_spec(t.resource_names@.map_values(|s: String| s@), ", "@)
}

/// The text beside a task's bar: the finish label for a milestone, none for
/// a summary, the resource names otherwise; none when it is blank.
pub open spec fn bar_label_spec(t: TaskSnapshot) -> Option<Seq<char>> {
    if t.summary && !t.milestone {
        None
    } else {
        let text = if t.milestone {
            finish_label_spec(t)
        } else {
            resource_names_label_spec(t)
        };
        if trim_spec(text).len() == 0 {
            None
        } else {
            Some(text)
        }
    }
}

/// Whether the task carries a non-blank note.
pub open spec fn has_notes_spec(t: TaskSnapshot) -> bool {
    has_text(t.notes)
}

/// Whether the task finishes after its deadline.
pub open spec fn missed_deadline_spec(t: TaskSnapshot) -> bool {
    t.deadline matches Some(d) && t.finish@ > d@
}

/// Whether the displayed date range covers exactly the tasks: the earliest
/// start and the latest finish, or 2025-01-01 for both when there are no
/// tasks.
pub open spec fn bounds_hold(p: ProjectSnapshot) -> bool {
    let ts = p.tasks@;
    if ts.len() == 0 {
        p.start_date@ == days_from_civil(2025, 1, 1) && p.end_date@ == days_from_civil(2025, 1, 1)
    } else {
        &&& exists|i: int| 0 <= i < ts.len() && ts[i].start@ == p.start_date@
        &&& forall|i: int| 0 <= i < ts.len() ==> p.start_date@ <= #[trigger] ts[i].start@
        &&& exists|i: int| 0 <= i < ts.len() && ts[i].finish@ == p.end_date@
        &&& forall|i: int| 0 <= i < ts.len() ==> #[trigger] ts[i].finish@ <= p.end_date@
    }
}

/// The task with its display texts for start, finish and duration removed.
pub open spec fn cleared(t: TaskSnapshot) -> TaskSnapshot {
    TaskSnapshot { start_text: None, finish_text: None, duration_text: None, ..t }
}

/// The day on which an empty project is shown (2025-01-01).
pub fn default_project_day() -> (r: Date)
    ensures
        r@ == days_from_civil(2025, 1, 1),
{
    match Date::from_ymd(2025, 1, 1) {
        Some(d) => d,
        None => {
            proof {
                assert(false);
            }
            Date::from_days_in_range(1)
        }
    }
}

impl TaskSnapshot {
    /// Working days of the task (0 for a milestone).
    pub fn duration_days(&self) -> (r: i64)
        requires
            duration_defined(*self),
        ensures
            r == duration_days_spec(*self),
            0 <= r <= MAX_DAY - MIN_DAY + 1,
    {
        if self.milestone {
            0
        } else {
            working_days_inclusive(self.start, self.finish)
        }
    }

    /// Start column text.
    pub fn start_label(&self) -> (r: String)
        ensures
            r@ == start_label_spec(*self),
    {
        if let Some(v) = &self.start_text {
            if !is_blank(v.as_str()) {
                return v.clone();
            }
        }
        let mut s = self.start.format("%Y/%m/%d");
        push_str(&mut s, " 8:00");
        s
    }

    /// Finish column text.
    pub fn finish_label(&self) -> (r: String)
        ensures
            r@ == finish_label_spec(*self),
    {
        if let Some(v) = &self.finish_text {
            if !is_blank(v.as_str()) {
                return v.clone();
            }
        }
        let mut s = self.finish.format("%Y/%m/%d");
        push_str(&mut s, " 17:00");
        s
    }

    /// Duration column text.
    pub fn duration_label(&self) -> (r: String)
        requires
            has_text(self.duration_text) || duration_defined(*self),
        ensures
            r@ == duration_label_spec(*self),
    {
        if let Some(v) = &self.duration_text {
            if !is_blank(v.as_str()) {
                return v.clone();
            }
        }
        if self.milestone {
            return String::from_str("0 days");
        }
        let days = self.duration_days();
        if days == 1 {
            String::from_str("1 day")
        } else {
            let mut s = String::new();
            push_signed_decimal(&mut s, days);
            push_str(&mut s, " days");
            s
        }
    }

    /// Resource column text.
    pub fn resource_names_label(&self) -> (r: String)
        ensures
            r@ == resource_names_label_spec(*self),
    {
        join(&self.resource_names, ", ")
    }

    /// The text beside the task's bar in the chart: the finish label for a
    /// milestone, nothing for a summary, the resource names for any other
    /// task; nothing when that text is blank.
    pub fn bar_label(&self) -> (r: Option<String>)
        ensures
            match r {
                Some(text) => bar_label_spec(*self) == Some(text@),
                None => bar_label_spec(*self) is None,
            },
    {
        let text = if self.milestone {
            self.finish_label()
        } else if self.summary {
            return None;
        } else {
            self.resource_names_label()
        };
        if is_blank(text.as_str()) {
            None
        } else {
            Some(text)
        }
    }

    /// Whether the task carries a non-blank note.
    pub fn has_notes(&self) -> (r: bool)
        ensures
            r == has_notes_spec(*self),
    {
        match &self.notes {
            Some(v) => !is_blank(v.as_str()),
            None => false,
        }
    }

    /// Whether the task finishes after its deadline.
    pub fn missed_deadline(&self) -> (r: bool)
        ensures
            r == missed_deadline_spec(*self),
    {
        match &self.deadline {
            Some(d) => d.lt(&self.finish),
            None => false,
        }
    }
}

/// The position of the first task with number `id`.
pub fn find_task_index(tasks: &Vec<TaskSnapshot>, id: usize) -> (r: Option<usize>)
    ensures
        match r {
            Some(j) => first_index(numbers(tasks@), id) == Some(j as int) && j < tasks.len(),
            None => first_index(numbers(tasks@), id) is None,
        },
{
    let ghost nums = numbers(tasks@);
    let mut j: usize = 0;
    while j < tasks.len()
        invariant
            j <= tasks.len(),
            nums == numbers(tasks@),
            forall|k: int| 0 <= k < j ==> nums[k] != id,
        decreases tasks.len() - j,
    {
        if tasks[j].number == id {
            proof {
                lemma_first_index_unique(nums, id, j as int);
            }
            return Some(j);
        }
        j = j + 1;
    }
    proof {
        lemma_first_index_none(nums, id);
    }
    None
}

/// One past the last descendant of task `index`.
pub fn subtree_end_of(tasks: &Vec<TaskSnapshot>, index: usize) -> (r: usize)
    requires
        index < tasks.len(),
    ensures
        r == subtree_end(tasks@, index as int),
        index < r <= tasks.len(),
        forall|k: int| index < k < r ==> tasks@[k].indent > tasks@[index as int].indent,
{
    let indent = tasks[index].indent;
    let mut end = index + 1;
    while end < tasks.len() && tasks[end].indent > indent
        invariant
            index < end <= tasks.len(),
            indent == tasks@[index as int].indent,
            subtree_end_from(tasks@, index as int, end as int) == subtree_end(tasks@, index as int),
            forall|k: int| index < k < end ==> tasks@[k].indent > indent,
        decreases tasks.len() - end,
    {
        end = end + 1;
    }
    end
}

impl ProjectSnapshot {
    /// A project holding the given tasks, its range covering them.
    pub fn from_tasks(tasks: Vec<TaskSnapshot>) -> (r: Self)
        ensures
            r.tasks@ == tasks@,
            bounds_hold(r),
    {
        let day = default_project_day();
        let mut snapshot = ProjectSnapshot { start_date: day, end_date: day, tasks };
        snapshot.refresh_bounds();
        snapshot
    }

    /// Recomputes the project range from the tasks.
    pub fn refresh_bounds(&mut self)
        ensures
            final(self).tasks == old(self).tasks,
            bounds_hold(*final(self)),
    {
        if self.tasks.len() == 0 {
            let day = default_project_day();
            self.start_date = day;
            self.end_date = day;
            return;
        }
        let mut start = self.tasks[0].start;
        let mut end = self.tasks[0].finish;
        let mut i: usize = 0;
        while i < self.tasks.len()
            invariant
                0 < self.tasks.len(),
                i <= self.tasks.len(),
                self.tasks == old(self).tasks,
                exists|k: int| 0 <= k < self.tasks.len() && self.tasks@[k].start@ == start@,
                forall|k: int| 0 <= k < i ==> start@ <= #[trigger] self.tasks@[k].start@,
                exists|k: int| 0 <= k < self.tasks.len() && self.tasks@[k].finish@ == end@,
                forall|k: int| 0 <= k < i ==> #[trigger] self.tasks@[k].finish@ <= end@,
            decreases self.tasks.len() - i,
        {
            let t = &self.tasks[i];
            if t.start.lt(&start) {
                start = t.start;
            }
            if end.lt(&t.finish) {
                end = t.finish;
            }
            i = i + 1;
        }
        self.start_date = start;
        self.end_date = end;
    }

    /// Removes the start, finish and duration display texts of every task.
    pub fn clear_display_texts(&mut self)
        ensures
            final(self).start_date == old(self).start_date,
            final(self).end_date == old(self).end_date,
            final(self).tasks@.len() == old(self).tasks@.len(),
            forall|i: int|
                0 <= i < old(self).tasks@.len() ==> final(self).tasks@[i] == cleared(
                    old(self).tasks@[i],
                ),
    {
        let mut i: usize = 0;
        while i < self.tasks.len()
            invariant
                i <= self.tasks.len(),
                self.tasks.len() == old(self).tasks.len(),
                self.start_date == old(self).start_date,
                self.end_date == old(self).end_date,
                forall|k: int| 0 <= k < i ==> self.tasks@[k] == cleared(old(self).tasks@[k]),
                forall|k: int| i <= k < self.tasks.len() ==> self.tasks@[k] == old(self).tasks@[k],
            decreases self.tasks.len() - i,
        {
            self.tasks[i].start_text = None;
            self.tasks[i].finish_text = None;
            self.tasks[i].duration_text = None;
            i = i + 1;
        }
    }

    /// The number for a new task: one more than the largest task number.
    pub fn next_task_id(&self) -> (r: usize)
        requires
            max_number(numbers(self.tasks@)) < usize::MAX,
        ensures
            r == max_number(numbers(self.tasks@)) + 1,
    {
        let ghost nums = numbers(self.tasks@);
        let mut m: usize = 0;
        let mut i: usize = 0;
        while i < self.tasks.len()
            invariant
                i <= self.tasks.len(),
                nums == numbers(self.tasks@),
                m == max_number(nums.subrange(0, i as int)),
            decreases self.tasks.len() - i,
        {
            proof {
                let pre = nums.subrange(0, i + 1);
                assert(pre.drop_last() =~= nums.subrange(0, i as int));
                assert(pre.last() == self.tasks@[i as int].number);
            }
            if self.tasks[i].number > m {
                m = self.tasks[i].number;
            }
            i = i + 1;
        }
        assert(nums.subrange(0, self.tasks.len() as int) =~= nums);
        m + 1
    }

    /// The position of the first task with number `id`.
    pub fn task_index(&self, id: usize) -> (r: Option<usize>)
        ensures
            match r {
                Some(j) => first_index(numbers(self.tasks@), id) == Some(j as int) && j
                    < self.tasks.len(),
                None => first_index(numbers(self.tasks@), id) is None,
            },
    {
        find_task_index(&self.tasks, id)
    }

    /// The first task with number `id`.
    pub fn task(&self, id: usize) -> (r: Option<&TaskSnapshot>)
        ensures
            match first_index(numbers(self.tasks@), id) {
                Some(j) => r == Some(&self.tasks@[j]),
                None => r is None,
            },
    {
        match self.task_index(id) {
            Some(j) => Some(&self.tasks[j]),
            None => None,
        }
    }
}

} // verus!
