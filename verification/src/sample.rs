//! The sample plan that the planner opens with: a commercial construction
//! project of thirty tasks.
use crate::calendar::{days_from_civil, lemma_days_from_civil_ordered, ymd_valid, Date};
use crate::model::{bounds_hold, dates_of, same_but_dates, ProjectSnapshot, TaskSnapshot};
use crate::schedule::{recompute_summary_ranges, rolled_at, rolled_up};
use vstd::prelude::*;

verus! {

/// Every summary with children spans exactly its children, and every other
/// task keeps its own dates.
pub open spec fn summaries_consistent(tasks: Seq<TaskSnapshot>) -> bool {
    rolled_up(tasks, dates_of(tasks), tasks)
}

/// After rolling summaries up, the result is consistent with itself.
pub proof fn lemma_rolled_up_is_consistent(
    shape: Seq<TaskSnapshot>,
    before: Seq<(int, int)>,
    after: Seq<TaskSnapshot>,
)
    requires
        rolled_up(shape, before, after),
    ensures
        summaries_consistent(after),
        rolled_up(after, before, after),
{
    crate::project::lemma_rolled_up_same_shape(shape, after, before, after);
    assert forall|i: int| 0 <= i < after.len() implies same_but_dates(
        after[i],
        #[trigger] after[i],
    ) by {
        assert(same_but_dates(shape[i], after[i]));
    }
    assert forall|i: int| 0 <= i < after.len() implies rolled_at(
        after,
        dates_of(after),
        after,
        i,
    ) by {
        assert(rolled_at(after, before, after, i));
    }
}

/// Row `i` of the sample plan: number, name, start and finish as (year,
/// month, day), bit pattern of the completed fraction, outline depth,
/// summary and milestone flags, and predecessor numbers.
pub open spec fn sample_row(i: int) -> (
    usize,
    Seq<char>,
    (int, int, int),
    (int, int, int),
    u32,
    usize,
    bool,
    bool,
    Seq<usize>,
) {
    if i == 0 {
        (32, "Construction"@, (2025, 1, 29), (2025, 3, 21), 0x3edc_28f6, 0, true, false, seq![])
    } else if i == 1 {
        (33, "Site preparation"@, (2025, 1, 29), (2025, 2, 6), 0x3f80_0000, 0, true, false, seq![])
    } else if i == 2 {
        (34, "Obtain permits"@, (2025, 1, 29), (2025, 1, 31), 0x3f80_0000, 1, false, false, seq![])
    } else if i == 3 {
        (35, "Survey and stake building"@, (2025, 2, 3), (2025, 2, 3), 0x3f80_0000, 1, false, false, seq![34usize])
    } else if i == 4 {
        (36, "Clear lot"@, (2025, 2, 3), (2025, 2, 4), 0x3f80_0000, 1, false, false, seq![35usize])
    } else if i == 5 {
        (37, "Temporary utilities"@, (2025, 2, 5), (2025, 2, 6), 0x3f4c_cccd, 1, false, false, seq![36usize])
    } else if i == 6 {
        (38, "Site ready milestone"@, (2025, 2, 6), (2025, 2, 6), 0x3f80_0000, 1, false, true, seq![37usize])
    } else if i == 7 {
        (39, "Foundation"@, (2025, 2, 7), (2025, 2, 20), 0x3f1e_b852, 0, true, false, seq![38usize])
    } else if i == 8 {
        (40, "Excavate footings"@, (2025, 2, 7), (2025, 2, 10), 0x3f80_0000, 1, false, false, seq![38usize])
    } else if i == 9 {
        (41, "Pour concrete footings"@, (2025, 2, 11), (2025, 2, 14), 0x3f66_6666, 1, false, false, seq![40usize])
    } else if i == 10 {
        (42, "Slab"@, (2025, 2, 17), (2025, 2, 20), 0x3eb3_3333, 0, true, false, seq![41usize])
    } else if i == 11 {
        (43, "Install vapor barrier"@, (2025, 2, 17), (2025, 2, 17), 0x3f33_3333, 1, false, false, seq![41usize])
    } else if i == 12 {
        (44, "Pour slab"@, (2025, 2, 18), (2025, 2, 20), 0x3e4c_cccd, 1, false, false, seq![43usize])
    } else if i == 13 {
        (45, "Framing"@, (2025, 2, 21), (2025, 3, 5), 0x3e57_0a3d, 0, true, false, seq![44usize])
    } else if i == 14 {
        (46, "Frame exterior walls"@, (2025, 2, 21), (2025, 2, 26), 0x3eb3_3333, 1, false, false, seq![44usize])
    } else if i == 15 {
        (47, "Set roof trusses"@, (2025, 2, 27), (2025, 3, 5), 0x3dcc_cccd, 1, false, false, seq![46usize])
    } else if i == 16 {
        (48, "Mechanical rough-in"@, (2025, 3, 3), (2025, 3, 11), 0x3d4c_cccd, 0, true, false, seq![46usize])
    } else if i == 17 {
        (49, "Electrical rough-in"@, (2025, 3, 3), (2025, 3, 6), 0x3dcc_cccd, 1, false, false, seq![46usize])
    } else if i == 18 {
        (50, "Plumbing rough-in"@, (2025, 3, 5), (2025, 3, 10), 0, 1, false, false, seq![49usize])
    } else if i == 19 {
        (51, "HVAC rough-in"@, (2025, 3, 7), (2025, 3, 11), 0, 1, false, false, seq![49usize])
    } else if i == 20 {
        (52, "Exterior close-in"@, (2025, 3, 6), (2025, 3, 17), 0, 0, true, false, seq![47usize])
    } else if i == 21 {
        (53, "Install roofing"@, (2025, 3, 6), (2025, 3, 10), 0, 1, false, false, seq![47usize])
    } else if i == 22 {
        (54, "Install windows"@, (2025, 3, 11), (2025, 3, 13), 0, 1, false, false, seq![53usize])
    } else if i == 23 {
        (55, "Exterior inspection"@, (2025, 3, 17), (2025, 3, 17), 0, 1, false, true, seq![54usize])
    } else if i == 24 {
        (56, "Interior finish"@, (2025, 3, 12), (2025, 3, 21), 0, 0, true, false, seq![51usize])
    } else if i == 25 {
        (57, "Insulation"@, (2025, 3, 12), (2025, 3, 13), 0, 1, false, false, seq![51usize])
    } else if i == 26 {
        (58, "Drywall"@, (2025, 3, 14), (2025, 3, 19), 0, 1, false, false, seq![57usize])
    } else if i == 27 {
        (59, "Final phase"@, (2025, 3, 20), (2025, 3, 21), 0, 0, true, false, seq![55usize, 58usize])
    } else if i == 28 {
        (60, "Punch list"@, (2025, 3, 20), (2025, 3, 21), 0, 1, false, false, seq![55usize, 58usize])
    } else if i == 29 {
        (61, "Substantial completion"@, (2025, 3, 21), (2025, 3, 21), 0, 1, false, true, seq![60usize])
    } else {
        (0, Seq::empty(), (0, 0, 0), (0, 0, 0), 0, 0, false, false, Seq::empty())
    }
}

/// The listed start and finish day of each row of the sample plan.
pub open spec fn sample_dates() -> Seq<(int, int)> {
    Seq::new(
        30,
        |i: int|
            {
                let row = sample_row(i);
                (
                    days_from_civil(row.2.0, row.2.1, row.2.2),
                    days_from_civil(row.3.0, row.3.1, row.3.2),
                )
            },
    )
}

/// Every row of the sample plan starts no later than it finishes.
proof fn lemma_sample_dates_ordered()
    ensures
        forall|i: int| 0 <= i < 30 ==> (#[trigger] sample_dates()[i]).0 <= sample_dates()[i].1,
{
    assert forall|i: int| 0 <= i < 30 implies (#[trigger] sample_dates()[i]).0
        <= sample_dates()[i].1 by {
        let row = sample_row(i);
        if row.2 != row.3 {
            lemma_days_from_civil_ordered(row.2.0, row.2.1, row.2.2, row.3.0, row.3.1, row.3.2);
        }
    }
}

/// Task `t` has the fields of row `i` of the sample plan, other than its
/// dates, and no resources, display texts, notes or deadline.
pub open spec fn has_sample_fields(t: TaskSnapshot, i: int) -> bool {
    let row = sample_row(i);
    &&& t.number == row.0
    &&& t.name@ == row.1
    &&& t.progress_bits == row.4
    &&& t.indent == row.5
    &&& t.summary == row.6
    &&& t.milestone == row.7
    &&& t.predecessors@ =~= row.8
    &&& t.resource_names@.len() == 0
    &&& t.start_text is None
    &&& t.finish_text is None
    &&& t.duration_text is None
    &&& t.notes is None
    &&& t.deadline is None
}

fn date_of(ymd: (i32, u32, u32)) -> (r: Date)
    requires
        ymd_valid(ymd.0 as int, ymd.1 as int, ymd.2 as int),
    ensures
        r@ == days_from_civil(ymd.0 as int, ymd.1 as int, ymd.2 as int),
{
    match Date::from_ymd(ymd.0, ymd.1, ymd.2) {
        Some(d) => d,
        None => {
            proof {
                assert(false);
            }
            Date::from_days_in_range(1)
        },
    }
}

/// A task of the sample plan, with no resources, texts, notes or deadline.
fn sample_task(
    number: usize,
    name: &str,
    start: (i32, u32, u32),
    finish: (i32, u32, u32),
    progress_bits: u32,
    indent: usize,
    summary: bool,
    milestone: bool,
    predecessors: Vec<usize>,
) -> (r: TaskSnapshot)
    requires
        ymd_valid(start.0 as int, start.1 as int, start.2 as int),
        ymd_valid(finish.0 as int, finish.1 as int, finish.2 as int),
    ensures
        r.number == number,
        r.name@ == name@,
        r.start@ == days_from_civil(start.0 as int, start.1 as int, start.2 as int),
        r.finish@ == days_from_civil(finish.0 as int, finish.1 as int, finish.2 as int),
        r.progress_bits == progress_bits,
        r.indent == indent,
        r.summary == summary,
        r.milestone == milestone,
        r.predecessors@ == predecessors@,
        r.resource_names@.len() == 0,
        r.start_text is None,
        r.finish_text is None,
        r.duration_text is None,
        r.notes is None,
        r.deadline is None,
{
    TaskSnapshot {
        number,
        name: String::from_str(name),
        start: date_of(start),
        finish: date_of(finish),
        progress_bits,
        indent,
        summary,
        milestone,
        predecessors,
        resource_names: Vec::new(),
        start_text: None,
        finish_text: None,
        duration_text: None,
        notes: None,
        deadline: None,
    }
}

/// Row `i` of the sample plan as a task with its listed dates.
fn sample_task_at(i: usize) -> (r: TaskSnapshot)
    requires
        i < 30,
    ensures
        has_sample_fields(r, i as int),
        (r.start@, r.finish@) == sample_dates()[i as int],
{
    match i {
        0 => sample_task(32, "Construction", (2025, 1, 29), (2025, 3, 21), 0x3edc_28f6, 0, true, false, Vec::new()),
        1 => sample_task(33, "Site preparation", (2025, 1, 29), (2025, 2, 6), 0x3f80_0000, 0, true, false, Vec::new()),
        2 => sample_task(34, "Obtain permits", (2025, 1, 29), (2025, 1, 31), 0x3f80_0000, 1, false, false, Vec::new()),
        3 => sample_task(35, "Survey and stake building", (2025, 2, 3), (2025, 2, 3), 0x3f80_0000, 1, false, false, vec![34]),
        4 => sample_task(36, "Clear lot", (2025, 2, 3), (2025, 2, 4), 0x3f80_0000, 1, false, false, vec![35]),
        5 => sample_task(37, "Temporary utilities", (2025, 2, 5), (2025, 2, 6), 0x3f4c_cccd, 1, false, false, vec![36]),
        6 => sample_task(38, "Site ready milestone", (2025, 2, 6), (2025, 2, 6), 0x3f80_0000, 1, false, true, vec![37]),
        7 => sample_task(39, "Foundation", (2025, 2, 7), (2025, 2, 20), 0x3f1e_b852, 0, true, false, vec![38]),
        8 => sample_task(40, "Excavate footings", (2025, 2, 7), (2025, 2, 10), 0x3f80_0000, 1, false, false, vec![38]),
        9 => sample_task(41, "Pour concrete footings", (2025, 2, 11), (2025, 2, 14), 0x3f66_6666, 1, false, false, vec![40]),
        10 => sample_task(42, "Slab", (2025, 2, 17), (2025, 2, 20), 0x3eb3_3333, 0, true, false, vec![41]),
        11 => sample_task(43, "Install vapor barrier", (2025, 2, 17), (2025, 2, 17), 0x3f33_3333, 1, false, false, vec![41]),
        12 => sample_task(44, "Pour slab", (2025, 2, 18), (2025, 2, 20), 0x3e4c_cccd, 1, false, false, vec![43]),
        13 => sample_task(45, "Framing", (2025, 2, 21), (2025, 3, 5), 0x3e57_0a3d, 0, true, false, vec![44]),
        14 => sample_task(46, "Frame exterior walls", (2025, 2, 21), (2025, 2, 26), 0x3eb3_3333, 1, false, false, vec![44]),
        15 => sample_task(47, "Set roof trusses", (2025, 2, 27), (2025, 3, 5), 0x3dcc_cccd, 1, false, false, vec![46]),
        16 => sample_task(48, "Mechanical rough-in", (2025, 3, 3), (2025, 3, 11), 0x3d4c_cccd, 0, true, false, vec![46]),
        17 => sample_task(49, "Electrical rough-in", (2025, 3, 3), (2025, 3, 6), 0x3dcc_cccd, 1, false, false, vec![46]),
        18 => sample_task(50, "Plumbing rough-in", (2025, 3, 5), (2025, 3, 10), 0, 1, false, false, vec![49]),
        19 => sample_task(51, "HVAC rough-in", (2025, 3, 7), (2025, 3, 11), 0, 1, false, false, vec![49]),
        20 => sample_task(52, "Exterior close-in", (2025, 3, 6), (2025, 3, 17), 0, 0, true, false, vec![47]),
        21 => sample_task(53, "Install roofing", (2025, 3, 6), (2025, 3, 10), 0, 1, false, false, vec![47]),
        22 => sample_task(54, "Install windows", (2025, 3, 11), (2025, 3, 13), 0, 1, false, false, vec![53]),
        23 => sample_task(55, "Exterior inspection", (2025, 3, 17), (2025, 3, 17), 0, 1, false, true, vec![54]),
        24 => sample_task(56, "Interior finish", (2025, 3, 12), (2025, 3, 21), 0, 0, true, false, vec![51]),
        25 => sample_task(57, "Insulation", (2025, 3, 12), (2025, 3, 13), 0, 1, false, false, vec![51]),
        26 => sample_task(58, "Drywall", (2025, 3, 14), (2025, 3, 19), 0, 1, false, false, vec![57]),
        27 => sample_task(59, "Final phase", (2025, 3, 20), (2025, 3, 21), 0, 0, true, false, vec![55, 58]),
        28 => sample_task(60, "Punch list", (2025, 3, 20), (2025, 3, 21), 0, 1, false, false, vec![55, 58]),
        29 => sample_task(61, "Substantial completion", (2025, 3, 21), (2025, 3, 21), 0, 1, false, true, vec![60]),
        _ => {
            proof {
                assert(false);
            }
            sample_task(0, "", (2025, 1, 1), (2025, 1, 1), 0, 0, false, false, Vec::new())
        },
    }
}

impl ProjectSnapshot {
    /// The sample plan: the thirty rows of [`sample_row`] in order, each
    /// task keeping its listed dates unless it is a summary with children,
    /// which spans them; the range covers all tasks.
    pub fn sample() -> (r: Self)
        ensures
            r.tasks@.len() == 30,
            forall|i: int| 0 <= i < 30 ==> has_sample_fields(#[trigger] r.tasks@[i], i),
            rolled_up(r.tasks@, sample_dates(), r.tasks@),
            summaries_consistent(r.tasks@),
            forall|i: int| 0 <= i < 30 ==> (#[trigger] r.tasks@[i]).start@ <= r.tasks@[i].finish@,
            bounds_hold(r),
    {
        let mut tasks: Vec<TaskSnapshot> = Vec::new();
        let mut i: usize = 0;
        while i < 30
            invariant
                i <= 30,
                tasks@.len() == i,
                forall|k: int| 0 <= k < i ==> has_sample_fields(#[trigger] tasks@[k], k),
                forall|k: int| 0 <= k < i ==> #[trigger] dates_of(tasks@)[k] == sample_dates()[k],
            decreases 30 - i,
        {
            let t = sample_task_at(i);
            let ghost before = tasks@;
            tasks.push(t);
            proof {
                assert forall|k: int| 0 <= k < i + 1 implies #[trigger] dates_of(tasks@)[k]
                    == sample_dates()[k] by {
                    if k < i {
                        assert(dates_of(before)[k] == dates_of(tasks@)[k]);
                    }
                }
            }
            i = i + 1;
        }
        assert(dates_of(tasks@) =~= sample_dates());
        let mut snapshot = ProjectSnapshot::from_tasks(tasks);
        let ghost before = snapshot.tasks@;
        recompute_summary_ranges(&mut snapshot.tasks);
        proof {
            lemma_rolled_up_is_consistent(before, dates_of(before), snapshot.tasks@);
            lemma_sample_dates_ordered();
            crate::project::lemma_rolled_up_ordered_from(before, dates_of(before), snapshot.tasks@, 0);
            assert forall|i: int| 0 <= i < 30 implies has_sample_fields(
                #[trigger] snapshot.tasks@[i],
                i,
            ) by {
                assert(same_but_dates(before[i], snapshot.tasks@[i]));
                assert(has_sample_fields(before[i], i));
            }
        }
        snapshot.refresh_bounds();
        snapshot
    }
}

} // verus!
