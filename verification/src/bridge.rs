//! The line protocol of the planning-engine bridge: the request line of each
//! edit, and the reading of a reply, line by line, into a project.
//!
//! A reply is a sequence of tab-separated lines ended by `END`: `OK`,
//! `ERR <message>`, `RANGE <start> <end>`, `TASKS <count>` and one
//! `TASK <id> <name> <start> <finish> <progress> <indent> <summary>
//! <milestone> <links>` line per task, the name in unpadded URL-safe base64.
//! Reading a progress needs floating point, which the caller does: the reader
//! hands the progress text out and takes the parsed value back.
use base64::Engine;
use crate::calendar::{
    count_working, formatted_date, lemma_count_working_counts_weekdays,
    lemma_week_has_five_working_days, weekdays_between, ymd_parse_result, Date, MAX_DAY,
};
use crate::links::{link_error_message, links_spec, parse_dependency_links, DependencyLink, LinkView};
use crate::model::has_text;
use crate::text::{
    bool_parse_spec, decimal, parse_bool, parse_usize, push_decimal, push_str, split_on,
    split_on_char, strip_line_end, strip_line_end_text, text_equal, usize_parse_spec,
};
use vstd::prelude::*;
use vstd::utf8::{decode_utf8, valid_utf8};
pub use crate::schedule::EditCommand;

verus! {

/// A task as the bridge reports it.
#[derive(Clone)]
pub struct TaskSnapshot {
    pub number: usize,
    pub name: String,
    pub start: Date,
    pub finish: Date,
    pub progress_bits: u32,
    pub indent: usize,
    pub summary: bool,
    pub milestone: bool,
    pub predecessors: Vec<DependencyLink>,
    pub resource_names: Vec<String>,
    pub start_text: Option<String>,
    pub finish_text: Option<String>,
    pub duration_text: Option<String>,
    pub notes: Option<String>,
    pub deadline: Option<Date>,
}

/// A project as the bridge reports it.
#[derive(Clone)]
pub struct ProjectSnapshot {
    pub start_date: Date,
    pub end_date: Date,
    pub status_date: Option<Date>,
    pub tasks: Vec<TaskSnapshot>,
}

/// Working days of a task: 0 for a milestone, otherwise the working days from
/// start to finish inclusive.
pub open spec fn bridge_duration_days(t: TaskSnapshot) -> int {
    if t.milestone {
        0
    } else {
        count_working(t.start@, t.finish@) as int
    }
}

/// A task's duration in working days: none for a milestone, otherwise the
/// number of its days from start to finish that fall on Monday to Friday, so
/// that a task spanning a whole week lasts five days.
pub proof fn lemma_bridge_duration_counts_weekdays(t: TaskSnapshot)
    ensures
        t.milestone ==> bridge_duration_days(t) == 0,
        !t.milestone ==> bridge_duration_days(t) == weekdays_between(t.start@, t.finish@).len(),
        !t.milestone && t.finish@ == t.start@ + 6 ==> bridge_duration_days(t) == 5,
{
    lemma_count_working_counts_weekdays(t.start@, t.finish@);
    lemma_week_has_five_working_days(t.start@);
}

impl TaskSnapshot {
    /// Start column text: the stored text when present and not blank, else
    /// the start date as `YYYY/MM/DD 8:00`.
    pub fn start_label(&self) -> (r: String)
        ensures
            r@ == if has_text(self.start_text) {
                self.start_text.unwrap()@
            } else {
                formatted_date(self.start@, "%Y/%m/%d"@) + " 8:00"@
            },
    {
        if let Some(text) = &self.start_text {
            if !crate::text::is_blank(text.as_str()) {
                return text.clone();
            }
        }
        let mut out = self.start.format("%Y/%m/%d");
        push_str(&mut out, " 8:00");
        out
    }

    /// Finish column text: the stored text when present and not blank, else
    /// the finish date as `YYYY/MM/DD 17:00`.
    pub fn finish_label(&self) -> (r: String)
        ensures
            r@ == if has_text(self.finish_text) {
                self.finish_text.unwrap()@
            } else {
                formatted_date(self.finish@, "%Y/%m/%d"@) + " 17:00"@
            },
    {
        if let Some(text) = &self.finish_text {
            if !crate::text::is_blank(text.as_str()) {
                return text.clone();
            }
        }
        let mut out = self.finish.format("%Y/%m/%d");
        push_str(&mut out, " 17:00");
        out
    }

    /// Working days of the task (0 for a milestone).
    pub fn duration_days(&self) -> (r: i64)
        requires
            self.milestone || self.start@ > self.finish@ || self.finish@ < MAX_DAY,
        ensures
            r == bridge_duration_days(*self),
    {
        if self.milestone {
            0
        } else {
            crate::calendar::working_days_inclusive(self.start, self.finish)
        }
    }

    /// Duration column text: the stored text when present and not blank,
    /// else `0 days` for a milestone, `1 day`, or `N days`.
    pub fn duration_label(&self) -> (r: String)
        requires
            self.milestone || self.start@ > self.finish@ || self.finish@ < MAX_DAY,
        ensures
            r@ == if has_text(self.duration_text) {
                self.duration_text.unwrap()@
            } else if self.milestone {
                "0 days"@
            } else if bridge_duration_days(*self) == 1 {
                "1 day"@
            } else {
                decimal(bridge_duration_days(*self) as nat) + " days"@
            },
    {
        if let Some(text) = &self.duration_text {
            if !crate::text::is_blank(text.as_str()) {
                return text.clone();
            }
        }
        if self.milestone {
            return String::from_str("0 days");
        }
        let days = self.duration_days();
        if days == 1 {
            String::from_str("1 day")
        } else {
            let mut out = String::new();
            push_decimal(&mut out, days as u64);
            push_str(&mut out, " days");
            out
        }
    }
}

/// The bytes that unpadded URL-safe base64 decoding (`base64`'s
/// `URL_SAFE_NO_PAD`) gives for a text, or the message of its error.
pub uninterp spec fn base64_url_decoded(text: Seq<char>) -> Result<Seq<u8>, Seq<char>>;

/// The message `std` gives for bytes that are not UTF-8.
pub uninterp spec fn utf8_error_text(bytes: Seq<u8>) -> Seq<char>;

/// `base64::engine::general_purpose::URL_SAFE_NO_PAD.decode`, its error shown
/// with `Display`; the contract names the outcome.
#[verifier::external_body]
fn base64_url_decode(text: &str) -> (r: Result<Vec<u8>, String>)
    ensures
        match r {
            Ok(v) => base64_url_decoded(text@) == Ok::<Seq<u8>, Seq<char>>(v@),
            Err(m) => base64_url_decoded(text@) == Err::<Seq<u8>, Seq<char>>(m@),
        },
{
    match base64::engine::general_purpose::URL_SAFE_NO_PAD.decode(text) {
        Ok(v) => Ok(v),
        Err(e) => Err(e.to_string()),
    }
}

/// `String::from_utf8`: succeeds exactly on UTF-8 bytes, giving the text they
/// encode; its error, shown with `Display`, is named.
#[verifier::external_body]
fn utf8_string(bytes: Vec<u8>) -> (r: Result<String, String>)
    ensures
        r is Ok <==> valid_utf8(bytes@),
        match r {
            Ok(s) => s@ == decode_utf8(bytes@),
            Err(m) => m@ == utf8_error_text(bytes@),
        },
{
    match String::from_utf8(bytes) {
        Ok(s) => Ok(s),
        Err(e) => Err(e.to_string()),
    }
}

/// The text of an `ERR` message: its base64 decoding when that is UTF-8 text,
/// else the message as sent.
pub open spec fn decode_spec(value: Seq<char>) -> Seq<char> {
    match base64_url_decoded(value) {
        Ok(bytes) => if valid_utf8(bytes) {
            decode_utf8(bytes)
        } else {
            value
        },
        Err(_) => value,
    }
}

/// Decodes an `ERR` message (see [`decode_spec`]).
pub fn decode(value: &str) -> (r: String)
    ensures
        r@ == decode_spec(value@),
{
    match base64_url_decode(value) {
        Ok(bytes) => match utf8_string(bytes) {
            Ok(s) => s,
            Err(_) => String::from_str(value),
        },
        Err(_) => String::from_str(value),
    }
}

/// The request line of an edit; dates are written `YYYY-MM-DD` and a
/// progress is written as `progress_text`.
pub open spec fn edit_request_spec(edit: EditCommand, progress_text: Seq<char>) -> Seq<char> {
    match edit {
        EditCommand::Move { id, start, finish } => "MOVE_ABS\t"@ + decimal(id as nat) + "\t"@
            + formatted_date(start@, "%Y-%m-%d"@) + "\t"@ + formatted_date(finish@, "%Y-%m-%d"@),
        EditCommand::ResizeStart { id, start } => "RESIZE_START_ABS\t"@ + decimal(id as nat)
            + "\t"@ + formatted_date(start@, "%Y-%m-%d"@),
        EditCommand::ResizeEnd { id, finish } => "RESIZE_END_ABS\t"@ + decimal(id as nat)
            + "\t"@ + formatted_date(finish@, "%Y-%m-%d"@),
        EditCommand::SetProgress { id, .. } => "SET_PROGRESS\t"@ + decimal(id as nat) + "\t"@
            + progress_text,
    }
}

/// The request line that asks for the project.
pub fn snapshot_request() -> (r: &'static str)
    ensures
        r@ == "SNAPSHOT"@,
{
    "SNAPSHOT"
}

/// The request line of an edit (see [`edit_request_spec`]); the caller
/// writes the progress of a `SetProgress` edit with four decimals.
pub fn edit_request(edit: EditCommand, progress_text: &str) -> (r: String)
    ensures
        r@ == edit_request_spec(edit, progress_text@),
{
    match edit {
        EditCommand::Move { id, start, finish } => {
            let mut out = String::from_str("MOVE_ABS\t");
            push_decimal(&mut out, id as u64);
            push_str(&mut out, "\t");
            let s = start.format("%Y-%m-%d");
            push_str(&mut out, s.as_str());
            push_str(&mut out, "\t");
            let f = finish.format("%Y-%m-%d");
            push_str(&mut out, f.as_str());
            out
        },
        EditCommand::ResizeStart { id, start } => {
            let mut out = String::from_str("RESIZE_START_ABS\t");
            push_decimal(&mut out, id as u64);
            push_str(&mut out, "\t");
            let s = start.format("%Y-%m-%d");
            push_str(&mut out, s.as_str());
            out
        },
        EditCommand::ResizeEnd { id, finish } => {
            let mut out = String::from_str("RESIZE_END_ABS\t");
            push_decimal(&mut out, id as u64);
            push_str(&mut out, "\t");
            let f = finish.format("%Y-%m-%d");
            push_str(&mut out, f.as_str());
            out
        },
        EditCommand::SetProgress { id, .. } => {
            let mut out = String::from_str("SET_PROGRESS\t");
            push_decimal(&mut out, id as u64);
            push_str(&mut out, "\t");
            push_str(&mut out, progress_text);
            out
        },
    }
}

/// A task line read up to its progress: number, name, dates and links, and
/// the texts of the fields that follow the progress.
pub struct PendingTask {
    pub number: usize,
    pub name: String,
    pub start: Date,
    pub finish: Date,
    pub predecessors: Vec<DependencyLink>,
    pub indent: String,
    pub summary: String,
    pub milestone: String,
}

/// What has been read of a reply.
pub struct ReplyState {
    /// An `OK` line was read.
    pub status_ok: bool,
    /// The project range of the last `RANGE` line.
    pub range: Option<(Date, Date)>,
    /// The tasks read so far.
    pub tasks: Vec<TaskSnapshot>,
    /// A task line waiting for its progress.
    pub pending: Option<PendingTask>,
}

/// What the caller does next.
pub enum ReplyAction {
    /// Read the next line and pass it to [`reply_step`].
    ReadLine,
    /// Parse this progress text as an `f32` and pass the outcome to
    /// [`resume_with_progress`].
    ParseProgress(String),
    /// The reply is over: the project, or the error to report.
    Done(Result<ProjectSnapshot, String>),
}

/// The fields of a task line up to its progress: number, name, start,
/// finish and links; or the message of the first field refused, taken in
/// the order name, links, number, start, finish.
pub open spec fn task_head_spec(p: Seq<Seq<char>>) -> Result<
    (nat, Seq<char>, int, int, Seq<LinkView>),
    Seq<char>,
> {
    match base64_url_decoded(p[2]) {
        Err(e) => Err("Invalid task name encoding: "@ + e),
        Ok(bytes) => if !valid_utf8(bytes) {
            Err("Invalid task name UTF-8: "@ + utf8_error_text(bytes))
        } else {
            match links_spec(p[9]) {
                Err(e) => Err(link_error_message(e.0, e.1)),
                Ok(links) => match usize_parse_spec(p[1]) {
                    Err(e) => Err("Invalid id: "@ + e.message_spec()),
                    Ok(id) => match ymd_parse_result(p[3]) {
                        Err(e) => Err("Invalid task start: "@ + e),
                        Ok(start) => match ymd_parse_result(p[4]) {
                            Err(e) => Err("Invalid task finish: "@ + e),
                            Ok(finish) => Ok((id, decode_utf8(bytes), start, finish, links)),
                        },
                    },
                },
            }
        },
    }
}

/// `t` holds the head `h` of the task line `p` and its texts after the
/// progress.
pub open spec fn pending_holds(
    t: PendingTask,
    h: (nat, Seq<char>, int, int, Seq<LinkView>),
    p: Seq<Seq<char>>,
) -> bool {
    &&& t.number == h.0
    &&& t.name@ == h.1
    &&& t.start@ == h.2
    &&& t.finish@ == h.3
    &&& t.predecessors@.map_values(|l: DependencyLink| l.view_of()) == h.4
    &&& t.indent@ == p[6]
    &&& t.summary@ == p[7]
    &&& t.milestone@ == p[8]
}

/// The message for a flag that is not `true` or `false`.
pub open spec fn bool_error_text() -> Seq<char> {
    "provided string was not `true` or `false`"@
}

/// `t` is the task of the pending line `pt` with the progress bits `bits`,
/// depth `indent` and flags `summary` and `milestone`, with no resources,
/// display texts, notes or deadline.
pub open spec fn task_completes(
    t: TaskSnapshot,
    pt: PendingTask,
    bits: u32,
    indent: usize,
    summary: bool,
    milestone: bool,
) -> bool {
    &&& t.number == pt.number
    &&& t.name == pt.name
    &&& t.start == pt.start
    &&& t.finish == pt.finish
    &&& t.progress_bits == bits
    &&& t.indent == indent
    &&& t.summary == summary
    &&& t.milestone == milestone
    &&& t.predecessors == pt.predecessors
    &&& t.resource_names@.len() == 0
    &&& t.start_text is None
    &&& t.finish_text is None
    &&& t.duration_text is None
    &&& t.notes is None
    &&& t.deadline is None
}

/// What the end of a reply gives for the state `s`: without an `OK` line an
/// error, without a range an error, else the project of the range and the
/// tasks read.
pub open spec fn reply_end(s: ReplyState, r: ReplyAction) -> bool {
    if !s.status_ok {
        r matches ReplyAction::Done(Err(m)) && m@ == "Bridge returned no OK status"@
    } else {
        match s.range {
            None => r matches ReplyAction::Done(Err(m)) && m@ == "Bridge snapshot missing range"@,
            Some((start, end)) => r matches ReplyAction::Done(Ok(p)) && p.start_date == start
                && p.end_date == end && p.status_date is None && p.tasks@ == s.tasks@,
        }
    }
}

/// `after` differs from `before` at most in the given fields.
pub open spec fn same_reply(before: ReplyState, after: ReplyState) -> bool {
    &&& after.status_ok == before.status_ok
    &&& after.range == before.range
    &&& after.tasks@ == before.tasks@
    &&& after.pending is None
}

impl ReplyState {
    /// The state before the first line of a reply.
    pub fn new() -> (r: Self)
        ensures
            !r.status_ok,
            r.range is None,
            r.tasks@.len() == 0,
            r.pending is None,
    {
        ReplyState { status_ok: false, range: None, tasks: Vec::new(), pending: None }
    }
}

fn finish_reply(state: &mut ReplyState) -> (r: ReplyAction)
    ensures
        reply_end(*old(state), r),
{
    if !state.status_ok {
        return ReplyAction::Done(Err(String::from_str("Bridge returned no OK status")));
    }
    match state.range {
        None => ReplyAction::Done(Err(String::from_str("Bridge snapshot missing range"))),
        Some((start_date, end_date)) => {
            let mut tasks: Vec<TaskSnapshot> = Vec::new();
            std::mem::swap(&mut tasks, &mut state.tasks);
            ReplyAction::Done(Ok(ProjectSnapshot { start_date, end_date, status_date: None, tasks }))
        },
    }
}

fn prefixed(prefix: &str, text: &str) -> (r: String)
    ensures
        r@ == prefix@ + text@,
{
    let mut out = String::from_str(prefix);
    push_str(&mut out, text);
    out
}

fn task_head(parts: &Vec<String>) -> (r: Result<PendingTask, String>)
    requires
        parts.len() == 10,
    ensures
        ({
            let p = parts@.map_values(|s: String| s@);
            match task_head_spec(p) {
                Err(m) => r matches Err(x) && x@ == m,
                Ok(h) => r matches Ok(t) && pending_holds(t, h, p),
            }
        }),
{
    let ghost p = parts@.map_values(|s: String| s@);
    assert(p[2] == parts@[2]@ && p[9] == parts@[9]@ && p[1] == parts@[1]@);
    assert(p[3] == parts@[3]@ && p[4] == parts@[4]@ && p[6] == parts@[6]@);
    assert(p[7] == parts@[7]@ && p[8] == parts@[8]@);
    let bytes = match base64_url_decode(parts[2].as_str()) {
        Ok(b) => b,
        Err(e) => {
            return Err(prefixed("Invalid task name encoding: ", e.as_str()));
        },
    };
    let name = match utf8_string(bytes) {
        Ok(s) => s,
        Err(e) => {
            return Err(prefixed("Invalid task name UTF-8: ", e.as_str()));
        },
    };
    let predecessors = match parse_dependency_links(parts[9].as_str()) {
        Ok(links) => links,
        Err(e) => {
            return Err(e.message());
        },
    };
    let number = match parse_usize(parts[1].as_str()) {
        Ok(n) => n,
        Err(e) => {
            return Err(prefixed("Invalid id: ", e.message().as_str()));
        },
    };
    let start = match Date::parse_ymd(parts[3].as_str()) {
        Ok(d) => d,
        Err(e) => {
            return Err(prefixed("Invalid task start: ", e.as_str()));
        },
    };
    let finish = match Date::parse_ymd(parts[4].as_str()) {
        Ok(d) => d,
        Err(e) => {
            return Err(prefixed("Invalid task finish: ", e.as_str()));
        },
    };
    Ok(
        PendingTask {
            number,
            name,
            start,
            finish,
            predecessors,
            indent: parts[6].clone(),
            summary: parts[7].clone(),
            milestone: parts[8].clone(),
        },
    )
}

/// Reads one line of a reply (see the module documentation). Every line but
/// `OK`, `RANGE` and `TASKS` lines, which update the state, and a task line,
/// which asks for its progress, ends the reply.
pub fn reply_step(state: &mut ReplyState, line: &str) -> (r: ReplyAction)
    requires
        old(state).pending is None,
    ensures
        ({
            let t = strip_line_end(line@);
            let p = split_on(t, '\t');
            if t == "END"@ {
                reply_end(*old(state), r)
            } else if p.len() == 1 && p[0] == "OK"@ {
                &&& r is ReadLine
                &&& final(state).status_ok
                &&& final(state).range == old(state).range
                &&& final(state).tasks@ == old(state).tasks@
                &&& final(state).pending is None
            } else if p.len() == 2 && p[0] == "ERR"@ {
                r matches ReplyAction::Done(Err(m)) && m@ == decode_spec(p[1])
            } else if p.len() == 3 && p[0] == "RANGE"@ {
                match ymd_parse_result(p[1]) {
                    Err(e) => r matches ReplyAction::Done(Err(m)) && m@ == "Invalid start date: "@
                        + e,
                    Ok(start) => match ymd_parse_result(p[2]) {
                        Err(e) => r matches ReplyAction::Done(Err(m)) && m@ == "Invalid end date: "@
                            + e,
                        Ok(end) => {
                            &&& r is ReadLine
                            &&& final(state).range matches Some((s, e)) && s@ == start && e@ == end
                            &&& final(state).status_ok == old(state).status_ok
                            &&& final(state).tasks@ == old(state).tasks@
                            &&& final(state).pending is None
                        },
                    },
                }
            } else if p.len() == 2 && p[0] == "TASKS"@ {
                r is ReadLine && same_reply(*old(state), *final(state))
            } else if p.len() == 10 && p[0] == "TASK"@ {
                match task_head_spec(p) {
                    Err(m) => r matches ReplyAction::Done(Err(x)) && x@ == m,
                    Ok(h) => {
                        &&& r matches ReplyAction::ParseProgress(x) && x@ == p[5]
                        &&& final(state).pending matches Some(pt) && pending_holds(pt, h, p)
                        &&& final(state).status_ok == old(state).status_ok
                        &&& final(state).range == old(state).range
                        &&& final(state).tasks@ == old(state).tasks@
                    },
                }
            } else {
                r matches ReplyAction::Done(Err(m)) && m@ == "Malformed bridge response: "@ + t
            }
        }),
{
    let t = strip_line_end_text(line);
    if text_equal(t.as_str(), "END") {
        return finish_reply(state);
    }
    let parts = split_on_char(t.as_str(), '\t');
    let ghost p = split_on(t@, '\t');
    assert(parts@.map_values(|s: String| s@) == p);
    let n = parts.len();
    if n >= 1 {
        assert(p[0] == parts@[0]@);
    }
    if n >= 2 {
        assert(p[1] == parts@[1]@);
    }
    if n >= 3 {
        assert(p[2] == parts@[2]@);
    }
    if n >= 6 {
        assert(p[5] == parts@[5]@);
    }
    if n == 1 && text_equal(parts[0].as_str(), "OK") {
        state.status_ok = true;
        return ReplyAction::ReadLine;
    }
    if n == 2 && text_equal(parts[0].as_str(), "ERR") {
        return ReplyAction::Done(Err(decode(parts[1].as_str())));
    }
    if n == 3 && text_equal(parts[0].as_str(), "RANGE") {
        let start = match Date::parse_ymd(parts[1].as_str()) {
            Ok(d) => d,
            Err(e) => {
                return ReplyAction::Done(Err(prefixed("Invalid start date: ", e.as_str())));
            },
        };
        let end = match Date::parse_ymd(parts[2].as_str()) {
            Ok(d) => d,
            Err(e) => {
                return ReplyAction::Done(Err(prefixed("Invalid end date: ", e.as_str())));
            },
        };
        state.range = Some((start, end));
        return ReplyAction::ReadLine;
    }
    if n == 2 && text_equal(parts[0].as_str(), "TASKS") {
        return ReplyAction::ReadLine;
    }
    if n == 10 && text_equal(parts[0].as_str(), "TASK") {
        return match task_head(&parts) {
            Err(m) => ReplyAction::Done(Err(m)),
            Ok(pending) => {
                let progress_text = parts[5].clone();
                state.pending = Some(pending);
                ReplyAction::ParseProgress(progress_text)
            },
        };
    }
    ReplyAction::Done(Err(prefixed("Malformed bridge response: ", t.as_str())))
}

/// Completes the pending task line with the outcome of parsing its progress
/// (its bit pattern, or the parser's message): the depth and the two flags
/// are read, in that order, and the task is added; the first refusal ends
/// the reply.
pub fn resume_with_progress(state: &mut ReplyState, progress: Result<u32, String>) -> (r:
    ReplyAction)
    requires
        old(state).pending is Some,
    ensures
        ({
            let pt = old(state).pending.unwrap();
            match progress {
                Err(e) => r matches ReplyAction::Done(Err(m)) && m@ == "Invalid progress: "@ + e@,
                Ok(bits) => match usize_parse_spec(pt.indent@) {
                    Err(e) => r matches ReplyAction::Done(Err(m)) && m@ == "Invalid indent: "@
                        + e.message_spec(),
                    Ok(indent) => match bool_parse_spec(pt.summary@) {
                        None => r matches ReplyAction::Done(Err(m)) && m@
                            == "Invalid summary flag: "@ + bool_error_text(),
                        Some(summary) => match bool_parse_spec(pt.milestone@) {
                            None => r matches ReplyAction::Done(Err(m)) && m@
                                == "Invalid milestone flag: "@ + bool_error_text(),
                            Some(milestone) => {
                                let n = old(state).tasks@.len();
                                &&& r is ReadLine
                                &&& final(state).tasks@.len() == n + 1
                                &&& final(state).tasks@.take(n as int) == old(state).tasks@
                                &&& task_completes(
                                    final(state).tasks@[n as int],
                                    pt,
                                    bits,
                                    indent as usize,
                                    summary,
                                    milestone,
                                )
                                &&& final(state).status_ok == old(state).status_ok
                                &&& final(state).range == old(state).range
                                &&& final(state).pending is None
                            },
                        },
                    },
                },
            }
        }),
{
    let pt = match state.pending.take() {
        Some(p) => p,
        None => {
            proof {
                assert(false);
            }
            return ReplyAction::ReadLine;
        },
    };
    let bits = match progress {
        Ok(b) => b,
        Err(e) => {
            return ReplyAction::Done(Err(prefixed("Invalid progress: ", e.as_str())));
        },
    };
    let indent = match parse_usize(pt.indent.as_str()) {
        Ok(v) => v,
        Err(e) => {
            return ReplyAction::Done(Err(prefixed("Invalid indent: ", e.message().as_str())));
        },
    };
    let summary = match parse_bool(pt.summary.as_str()) {
        Some(b) => b,
        None => {
            return ReplyAction::Done(
                Err(
                    prefixed(
                        "Invalid summary flag: ",
                        "provided string was not `true` or `false`",
                    ),
                ),
            );
        },
    };
    let milestone = match parse_bool(pt.milestone.as_str()) {
        Some(b) => b,
        None => {
            return ReplyAction::Done(
                Err(
                    prefixed(
                        "Invalid milestone flag: ",
                        "provided string was not `true` or `false`",
                    ),
                ),
            );
        },
    };
    let ghost before = state.tasks@;
    state.tasks.push(
        TaskSnapshot {
            number: pt.number,
            name: pt.name,
            start: pt.start,
            finish: pt.finish,
            progress_bits: bits,
            indent,
            summary,
            milestone,
            predecessors: pt.predecessors,
            resource_names: Vec::new(),
            start_text: None,
            finish_text: None,
            duration_text: None,
            notes: None,
            deadline: None,
        },
    );
    assert(state.tasks@.take(before.len() as int) =~= before);
    ReplyAction::ReadLine
}

} // verus!
