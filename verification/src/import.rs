//! Turning the project that the Microsoft Project import helper reports
//! into a project snapshot.
use crate::calendar::{ymd_parse_result, Date};
use crate::model::{ProjectSnapshot, TaskSnapshot};
use vstd::prelude::*;

verus! {

/// A task as the import helper reports it; dates are `YYYY-MM-DD` texts and
/// `progress_bits` is the bit pattern of the completed fraction.
pub struct MppTask {
    pub id: usize,
    pub name: String,
    pub start: String,
    pub finish: String,
    pub progress_bits: u32,
    pub indent: usize,
    pub summary: bool,
    pub milestone: bool,
    pub predecessors: Vec<usize>,
}

/// A project as the import helper reports it.
pub struct MppDocument {
    pub start_date: String,
    pub end_date: String,
    pub tasks: Vec<MppTask>,
}

/// Whether every date of the report reads as a `YYYY-MM-DD` date.
pub open spec fn mpp_dates_readable(doc: MppDocument) -> bool {
    &&& ymd_parse_result(doc.start_date@) is Ok
    &&& ymd_parse_result(doc.end_date@) is Ok
    &&& forall|i: int|
        0 <= i < doc.tasks@.len() ==> ymd_parse_result((#[trigger] doc.tasks@[i]).start@) is Ok
            && ymd_parse_result(doc.tasks@[i].finish@) is Ok
}

/// `t` is the reported task `m`: the same number, name, progress, depth,
/// flags and predecessors, the dates read from its texts, and no resources,
/// display texts, notes or deadline.
pub open spec fn is_imported_task(t: TaskSnapshot, m: MppTask) -> bool {
    &&& t.number == m.id
    &&& t.name@ == m.name@
    &&& ymd_parse_result(m.start@) == Ok::<int, Seq<char>>(t.start@)
    &&& ymd_parse_result(m.finish@) == Ok::<int, Seq<char>>(t.finish@)
    &&& t.progress_bits == m.progress_bits
    &&& t.indent == m.indent
    &&& t.summary == m.summary
    &&& t.milestone == m.milestone
    &&& t.predecessors@ == m.predecessors@
    &&& t.resource_names@.len() == 0
    &&& t.start_text is None
    &&& t.finish_text is None
    &&& t.duration_text is None
    &&& t.notes is None
    &&& t.deadline is None
}

/// `p` is the project of the report `doc`, task for task.
pub open spec fn is_imported_project(p: ProjectSnapshot, doc: MppDocument) -> bool {
    &&& ymd_parse_result(doc.start_date@) == Ok::<int, Seq<char>>(p.start_date@)
    &&& ymd_parse_result(doc.end_date@) == Ok::<int, Seq<char>>(p.end_date@)
    &&& p.tasks@.len() == doc.tasks@.len()
    &&& forall|i: int|
        0 <= i < doc.tasks@.len() ==> is_imported_task(#[trigger] p.tasks@[i], doc.tasks@[i])
}

fn copy_ids(v: &Vec<usize>) -> (r: Vec<usize>)
    ensures
        r@ == v@,
{
    let mut out: Vec<usize> = Vec::new();
    let mut i: usize = 0;
    while i < v.len()
        invariant
            i <= v.len(),
            out@ == v@.subrange(0, i as int),
        decreases v.len() - i,
    {
        out.push(v[i]);
        i = i + 1;
        assert(out@ =~= v@.subrange(0, i as int));
    }
    assert(v@.subrange(0, v.len() as int) =~= v@);
    out
}

fn read_date(text: &String) -> (r: Date)
    requires
        ymd_parse_result(text@) is Ok,
    ensures
        ymd_parse_result(text@) == Ok::<int, Seq<char>>(r@),
{
    match Date::parse_ymd(text.as_str()) {
        Ok(d) => d,
        Err(_) => {
            proof {
                assert(false);
            }
            Date::from_days_in_range(1)
        },
    }
}

impl MppDocument {
    /// The project of the report; every date must read as a date.
    pub fn into_snapshot(self) -> (r: ProjectSnapshot)
        requires
            mpp_dates_readable(self),
        ensures
            is_imported_project(r, self),
    {
        let mut tasks: Vec<TaskSnapshot> = Vec::new();
        let mut i: usize = 0;
        while i < self.tasks.len()
            invariant
                i <= self.tasks.len(),
                mpp_dates_readable(self),
                tasks@.len() == i,
                forall|k: int| 0 <= k < i ==> is_imported_task(#[trigger] tasks@[k], self.tasks@[k]),
            decreases self.tasks.len() - i,
        {
            let m = &self.tasks[i];
            assert(ymd_parse_result(self.tasks@[i as int].start@) is Ok);
            tasks.push(
                TaskSnapshot {
                    number: m.id,
                    name: m.name.clone(),
                    start: read_date(&m.start),
                    finish: read_date(&m.finish),
                    progress_bits: m.progress_bits,
                    indent: m.indent,
                    summary: m.summary,
                    milestone: m.milestone,
                    predecessors: copy_ids(&m.predecessors),
                    resource_names: Vec::new(),
                    start_text: None,
                    finish_text: None,
                    duration_text: None,
                    notes: None,
                    deadline: None,
                },
            );
            i = i + 1;
        }
        ProjectSnapshot {
            start_date: read_date(&self.start_date),
            end_date: read_date(&self.end_date),
            tasks,
        }
    }

    /// The project of the report, or `None` when one of its dates does not
    /// read as a date.
    pub fn try_into_snapshot(self) -> (r: Option<ProjectSnapshot>)
        ensures
            r is Some <==> mpp_dates_readable(self),
            r matches Some(p) ==> is_imported_project(p, self),
    {
        if Date::parse_ymd(self.start_date.as_str()).is_err() || Date::parse_ymd(
            self.end_date.as_str(),
        ).is_err() {
            return None;
        }
        let mut i: usize = 0;
        while i < self.tasks.len()
            invariant
                i <= self.tasks.len(),
                forall|k: int|
                    0 <= k < i ==> ymd_parse_result((#[trigger] self.tasks@[k]).start@) is Ok
                        && ymd_parse_result(self.tasks@[k].finish@) is Ok,
            decreases self.tasks.len() - i,
        {
            if Date::parse_ymd(self.tasks[i].start.as_str()).is_err() || Date::parse_ymd(
                self.tasks[i].finish.as_str(),
            ).is_err() {
                return None;
            }
            i = i + 1;
        }
        Some(self.into_snapshot())
    }
}

} // verus!
