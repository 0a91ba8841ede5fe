//! Writing a plan as an MSPDI XML document or a ProjectLibre POD file, and
//! finding the XML payload inside a POD file.
use crate::calendar::{
    formatted_datetime, lemma_count_working_counts_weekdays, lemma_week_has_five_working_days,
    weekdays_between,
};
use crate::links::{predecessor_type_code, relation_code, DependencyRelation};
use crate::model::{duration_days_spec, duration_defined, ProjectSnapshot, TaskSnapshot};
use crate::outline::{outline_number, outline_numbers};
use crate::text::{
    chars_of, decimal, push_char, push_decimal, push_signed_decimal, push_str, signed_decimal,
};
use vstd::prelude::*;
use vstd::string::StringSliceAdditionalSpecFns;
use vstd::utf8::encode_utf8;

verus! {

/// Why no XML payload could be taken from a POD file.
#[derive(Clone, Copy, Debug, PartialEq, Eq, Structural)]
pub enum PodError {
    /// The file holds no POD separator.
    SeparatorNotFound,
    /// Nothing follows the first POD separator.
    NoEmbeddedXml,
}

/// The serialized-Java-string header that opens a POD file.
pub open spec fn pod_prefix() -> Seq<u8> {
    seq![0xACu8, 0xEDu8, 0x00u8, 0x05u8, 0x74u8, 0x00u8, 0x05u8, 0x31u8, 0x2Eu8, 0x30u8, 0x2Eu8, 0x30u8]
}

/// The marker between the POD header and the XML payload.
pub open spec fn pod_separator() -> Seq<u8> {
    "@@@@@@@@@@ProjectLibreSeparator_MSXML@@@@@@@@@@"@.map_values(|c: char| c as u8)
}

/// Whether `needle` occurs in `haystack` starting at `i`.
pub open spec fn matches_at(haystack: Seq<u8>, needle: Seq<u8>, i: int) -> bool {
    &&& 0 <= i
    &&& i + needle.len() <= haystack.len()
    &&& haystack.subrange(i, i + needle.len()) == needle
}

/// The first position at or after `i` where `needle` occurs in `haystack`.
pub open spec fn first_match_from(haystack: Seq<u8>, needle: Seq<u8>, i: int) -> Option<int>
    decreases haystack.len() + 1 - i,
{
    if i < 0 || i + needle.len() > haystack.len() {
        None
    } else if haystack.subrange(i, i + needle.len()) == needle {
        Some(i)
    } else {
        first_match_from(haystack, needle, i + 1)
    }
}

/// The XML payload of a POD file: what follows the first separator, when
/// something does.
pub open spec fn embedded_xml_spec(bytes: Seq<u8>) -> Result<Seq<u8>, PodError> {
    match first_match_from(bytes, pod_separator(), 0) {
        None => Err(PodError::SeparatorNotFound),
        Some(start) => {
            let xml_start = start + pod_separator().len();
            if xml_start >= bytes.len() {
                Err(PodError::NoEmbeddedXml)
            } else {
                Ok(bytes.subrange(xml_start, bytes.len() as int))
            }
        },
    }
}

/// The bytes of a POD file that carries `xml` as its payload.
pub open spec fn pod_file_spec(xml: Seq<u8>) -> Seq<u8> {
    pod_prefix() + pod_separator() + xml
}

/// The characters that stand for `c` in XML text.
pub open spec fn escape_char(c: char) -> Seq<char> {
    if c == '&' {
        "&amp;"@
    } else if c == '<' {
        "&lt;"@
    } else if c == '>' {
        "&gt;"@
    } else if c == '"' {
        "&quot;"@
    } else if c == '\'' {
        "&apos;"@
    } else {
        seq![c]
    }
}

/// `s` with each XML special character replaced by its entity.
pub open spec fn escape_xml_spec(s: Seq<char>) -> Seq<char>
    decreases s.len(),
{
    if s.len() == 0 {
        Seq::empty()
    } else {
        escape_xml_spec(s.drop_last()) + escape_char(s.last())
    }
}

/// Escapes `&`, `<`, `>`, `"` and `'` for use in XML text.
pub fn escape_xml(value: &str) -> (r: String)
    ensures
        r@ == escape_xml_spec(value@),
{
    let cs = chars_of(value);
    let mut out = String::new();
    let mut i: usize = 0;
    while i < cs.len()
        invariant
            i <= cs.len(),
            cs@ == value@,
            out@ == escape_xml_spec(value@.subrange(0, i as int)),
        decreases cs.len() - i,
    {
        let c = cs[i];
        if c == '&' {
            push_str(&mut out, "&amp;");
        } else if c == '<' {
            push_str(&mut out, "&lt;");
        } else if c == '>' {
            push_str(&mut out, "&gt;");
        } else if c == '"' {
            push_str(&mut out, "&quot;");
        } else if c == '\'' {
            push_str(&mut out, "&apos;");
        } else {
            push_char(&mut out, c);
        }
        proof {
            let s = value@.subrange(0, i + 1);
            assert(s.drop_last() =~= value@.subrange(0, i as int));
            assert(s.last() == c);
        }
        i = i + 1;
    }
    assert(value@.subrange(0, cs.len() as int) =~= value@);
    out
}

/// The first position where `needle` occurs in `haystack`; an empty needle
/// occurs at 0.
pub fn find_subsequence(haystack: &[u8], needle: &[u8]) -> (r: Option<usize>)
    ensures
        match r {
            Some(k) => first_match_from(haystack@, needle@, 0) == Some(k as int),
            None => first_match_from(haystack@, needle@, 0) is None,
        },
{
    let n = needle.len();
    let hl = haystack.len();
    if n > hl {
        return None;
    }
    let mut i: usize = 0;
    while i <= hl - n
        invariant
            n == needle@.len(),
            hl == haystack@.len(),
            n <= hl,
            i <= hl - n + 1,
            first_match_from(haystack@, needle@, 0) == first_match_from(haystack@, needle@, i as int),
        decreases hl - n + 1 - i,
    {
        let mut k: usize = 0;
        while k < n && haystack[i + k] == needle[k]
            invariant
                n == needle@.len(),
                hl == haystack@.len(),
                i + n <= hl,
                k <= n,
                forall|m: int| 0 <= m < k ==> haystack@[i + m] == needle@[m],
            decreases n - k,
        {
            k = k + 1;
        }
        if k == n {
            assert(haystack@.subrange(i as int, i + n) =~= needle@);
            return Some(i);
        }
        assert(haystack@.subrange(i as int, i + n)[k as int] != needle@[k as int]);
        i = i + 1;
    }
    None
}

/// The POD file header bytes.
pub fn pod_prefix_bytes() -> (r: Vec<u8>)
    ensures
        r@ == pod_prefix(),
{
    let r: Vec<u8> = vec![0xACu8, 0xEDu8, 0x00u8, 0x05u8, 0x74u8, 0x00u8, 0x05u8, 0x31u8, 0x2Eu8, 0x30u8, 0x2Eu8, 0x30u8];
    assert(r@ =~= pod_prefix());
    r
}

/// The POD separator bytes.
pub fn pod_separator_bytes() -> (r: Vec<u8>)
    ensures
        r@ == pod_separator(),
{
    let cs = chars_of("@@@@@@@@@@ProjectLibreSeparator_MSXML@@@@@@@@@@");
    let ghost text = "@@@@@@@@@@ProjectLibreSeparator_MSXML@@@@@@@@@@"@;
    let mut out: Vec<u8> = Vec::new();
    let mut i: usize = 0;
    while i < cs.len()
        invariant
            i <= cs.len(),
            cs@ == text,
            out@ == text.subrange(0, i as int).map_values(|c: char| c as u8),
        decreases cs.len() - i,
    {
        out.push(cs[i] as u8);
        i = i + 1;
        assert(out@ =~= text.subrange(0, i as int).map_values(|c: char| c as u8));
    }
    assert(text.subrange(0, cs.len() as int) =~= text);
    out
}

/// The XML payload of a POD file (the bytes after the first separator).
pub fn extract_embedded_xml(bytes: &[u8]) -> (r: Result<Vec<u8>, PodError>)
    ensures
        match r {
            Ok(v) => embedded_xml_spec(bytes@) == Ok::<Seq<u8>, PodError>(v@),
            Err(e) => embedded_xml_spec(bytes@) == Err::<Seq<u8>, PodError>(e),
        },
{
    let sep = pod_separator_bytes();
    match find_subsequence(bytes, sep.as_slice()) {
        None => Err(PodError::SeparatorNotFound),
        Some(start) => {
            if start >= bytes.len() || bytes.len() - start <= sep.len() {
                return Err(PodError::NoEmbeddedXml);
            }
            let xml_start = start + sep.len();
            let mut out: Vec<u8> = Vec::new();
            let mut i: usize = xml_start;
            while i < bytes.len()
                invariant
                    xml_start <= i <= bytes@.len(),
                    out@ == bytes@.subrange(xml_start as int, i as int),
                decreases bytes.len() - i,
            {
                out.push(bytes[i]);
                i = i + 1;
                assert(out@ =~= bytes@.subrange(xml_start as int, i as int));
            }
            Ok(out)
        },
    }
}

fn append_bytes(out: &mut Vec<u8>, more: &[u8])
    ensures
        final(out)@ == old(out)@ + more@,
{
    let mut i: usize = 0;
    while i < more.len()
        invariant
            i <= more@.len(),
            out@ == old(out)@ + more@.subrange(0, i as int),
        decreases more.len() - i,
    {
        out.push(more[i]);
        i = i + 1;
        assert(out@ =~= old(out)@ + more@.subrange(0, i as int));
    }
    assert(more@.subrange(0, more@.len() as int) =~= more@);
}

/// The bytes of a POD file that carries the XML text `xml`: the header, the
/// separator, then the UTF-8 bytes of `xml`.
pub fn pod_file_bytes(xml: &str) -> (r: Vec<u8>)
    ensures
        r@ == pod_file_spec(xml.spec_bytes()),
{
    let mut out = pod_prefix_bytes();
    let sep = pod_separator_bytes();
    append_bytes(&mut out, sep.as_slice());
    append_bytes(&mut out, xml.as_bytes());
    out
}

proof fn lemma_separator_facts()
    ensures
        pod_separator().len() == 47,
        pod_separator()[0] == 64u8,
{
    reveal_strlit("@@@@@@@@@@ProjectLibreSeparator_MSXML@@@@@@@@@@");
    assert('@' as u8 == 64u8);
}

proof fn lemma_separator_first_at_header_end(xml: Seq<u8>, i: int)
    requires
        0 <= i <= 12,
    ensures
        first_match_from(pod_file_spec(xml), pod_separator(), i) == Some(12int),
    decreases 12 - i,
{
    let b = pod_file_spec(xml);
    let s = pod_separator();
    lemma_separator_facts();
    assert(b.len() == 59 + xml.len());
    if i == 12 {
        assert(b.subrange(12, 59) =~= s);
    } else {
        lemma_separator_first_at_header_end(xml, i + 1);
        assert(b[i] == pod_prefix()[i]);
        assert(pod_prefix()[i] != 64u8);
        assert(b.subrange(i, i + 47)[0] == b[i]);
        assert(b.subrange(i, i + 47) != s);
    }
}

/// Reading back a POD file gives the payload it was written with; a file
/// written with an empty payload is reported as holding no XML.
pub proof fn lemma_pod_payload_round_trip(xml: Seq<u8>)
    ensures
        embedded_xml_spec(pod_file_spec(xml)) == (if xml.len() > 0 {
            Ok::<Seq<u8>, PodError>(xml)
        } else {
            Err::<Seq<u8>, PodError>(PodError::NoEmbeddedXml)
        }),
{
    let b = pod_file_spec(xml);
    lemma_separator_facts();
    lemma_separator_first_at_header_end(xml, 0);
    if xml.len() > 0 {
        assert(b.subrange(59, b.len() as int) =~= xml);
    }
}

/// `1` for a set flag, `0` otherwise.
pub open spec fn xml_flag(b: bool) -> Seq<char> {
    if b {
        "1"@
    } else {
        "0"@
    }
}

/// The duration of a task in MSPDI form: no hours for a milestone, otherwise
/// eight hours per working day.
pub open spec fn xml_duration(t: TaskSnapshot) -> Seq<char> {
    if t.milestone {
        "PT0H0M0S"@
    } else {
        "PT"@ + decimal((duration_days_spec(t) * 8) as nat) + "H0M0S"@
    }
}

/// A task's exported duration: no hours for a milestone, otherwise eight
/// hours for each of its days from start to finish that falls on Monday to
/// Friday, so that a task spanning a whole week has forty hours.
pub proof fn lemma_xml_duration_counts_weekdays(t: TaskSnapshot)
    ensures
        t.milestone ==> xml_duration(t) == "PT0H0M0S"@,
        !t.milestone ==> xml_duration(t) == "PT"@ + decimal(
            (8 * weekdays_between(t.start@, t.finish@).len()) as nat,
        ) + "H0M0S"@,
        !t.milestone && t.finish@ == t.start@ + 6 ==> xml_duration(t) == "PT"@ + decimal(40) + "H0M0S"@,
{
    lemma_count_working_counts_weekdays(t.start@, t.finish@);
    lemma_week_has_five_working_days(t.start@);
}

/// A finish-to-start link from predecessor `pred`.
pub open spec fn xml_link(pred: usize) -> Seq<char> {
    "            <PredecessorLink>\n"@
        + "                <PredecessorUID>"@ + decimal(pred as nat) + "</PredecessorUID>\n"@
        + "                <CrossProject>0</CrossProject>\n"@
        + "                <Type>"@ + signed_decimal(relation_code(DependencyRelation::Fs))
        + "</Type>\n"@
        + "            </PredecessorLink>\n"@
}

/// The links from each of `preds`, in order.
pub open spec fn xml_links(preds: Seq<usize>) -> Seq<char>
    decreases preds.len(),
{
    if preds.len() == 0 {
        Seq::empty()
    } else {
        xml_links(preds.drop_last()) + xml_link(preds.last())
    }
}

/// The `<Task>` element of one task, given its outline number and its
/// percentage complete.
#[verifier::opaque]
pub open spec fn xml_task(t: TaskSnapshot, outline: Seq<char>, percent: int) -> Seq<char> {
    let start = formatted_datetime(t.start@, 8, 0, 0);
    let finish = formatted_datetime(t.finish@, 17, 0, 0);
    let duration = xml_duration(t);
    "        <Task>\n"@
        + "            <UID>"@ + decimal(t.number as nat) + "</UID>\n"@
        + "            <ID>"@ + decimal(t.number as nat) + "</ID>\n"@
        + "            <Name>"@ + escape_xml_spec(t.name@) + "</Name>\n"@
        + "            <Type>"@ + xml_flag(t.summary) + "</Type>\n"@
        + "            <IsNull>0</IsNull>\n"@
        + "            <CreateDate>"@ + start + "</CreateDate>\n"@
        + "            <WBS>"@ + outline + "</WBS>\n"@
        + "            <OutlineNumber>"@ + outline + "</OutlineNumber>\n"@
        + "            <OutlineLevel>"@ + decimal((t.indent + 1) as nat) + "</OutlineLevel>\n"@
        + "            <Priority>500</Priority>\n"@
        + "            <Start>"@ + start + "</Start>\n"@
        + "            <Finish>"@ + finish + "</Finish>\n"@
        + "            <Duration>"@ + duration + "</Duration>\n"@
        + "            <DurationFormat>7</DurationFormat>\n"@
        + "            <Resume>"@ + start + "</Resume>\n"@
        + "            <ResumeValid>0</ResumeValid>\n"@
        + "            <EffortDriven>1</EffortDriven>\n"@
        + "            <Recurring>0</Recurring>\n"@
        + "            <OverAllocated>0</OverAllocated>\n"@
        + "            <Estimated>0</Estimated>\n"@
        + "            <Milestone>"@ + xml_flag(t.milestone) + "</Milestone>\n"@
        + "            <Summary>"@ + xml_flag(t.summary) + "</Summary>\n"@
        + "            <Critical>0</Critical>\n"@
        + "            <IsSubproject>0</IsSubproject>\n"@
        + "            <IsSubprojectReadOnly>0</IsSubprojectReadOnly>\n"@
        + "            <ExternalTask>0</ExternalTask>\n"@
        + "            <FixedCostAccrual>3</FixedCostAccrual>\n"@
        + "            <PercentComplete>"@ + signed_decimal(percent) + "</PercentComplete>\n"@
        + "            <PercentWorkComplete>"@ + signed_decimal(percent)
        + "</PercentWorkComplete>\n"@
        + "            <RemainingDuration>"@ + duration + "</RemainingDuration>\n"@
        + "            <Rollup>0</Rollup>\n"@
        + "            <EarnedValueMethod>0</EarnedValueMethod>\n"@
        + xml_links(t.predecessors@)
        + "            <Active>1</Active>\n"@
        + "            <Manual>0</Manual>\n"@
        + "        </Task>\n"@
}

/// The `<Task>` elements of the first `n` tasks.
pub open spec fn xml_tasks(tasks: Seq<TaskSnapshot>, percents: Seq<i32>, n: int) -> Seq<char>
    decreases n,
{
    if n <= 0 {
        Seq::empty()
    } else {
        xml_tasks(tasks, percents, n - 1) + xml_task(
            tasks[n - 1],
            outline_number(tasks, n - 1),
            percents[n - 1] as int,
        )
    }
}

/// What the task elements of a project need: counting working days stays
/// within representable dates, and outline levels are below `usize::MAX`.
pub open spec fn exportable(tasks: Seq<TaskSnapshot>) -> bool {
    forall|i: int|
        0 <= i < tasks.len() ==> duration_defined(#[trigger] tasks[i]) && tasks[i].indent
            < usize::MAX
}

/// The whole MSPDI document of a project.
pub open spec fn mspdi_xml_spec(p: ProjectSnapshot, percents: Seq<i32>) -> Seq<char> {
    "<?xml version=\"1.0\" encoding=\"UTF-8\" standalone=\"yes\"?>\n"@
        + "<Project xmlns=\"http://schemas.microsoft.com/project\">\n"@
        + "    <SaveVersion>12</SaveVersion>\n"@
        + "    <Name>ProjectLibre</Name>\n"@
        + "    <Title>ProjectLibre</Title>\n"@
        + "    <ScheduleFromStart>1</ScheduleFromStart>\n"@
        + "    <StartDate>"@ + formatted_datetime(p.start_date@, 8, 0, 0) + "</StartDate>\n"@
        + "    <FinishDate>"@ + formatted_datetime(p.end_date@, 17, 0, 0) + "</FinishDate>\n"@
        + "    <CalendarUID>1</CalendarUID>\n"@
        + "    <Calendars>\n"@
        + "        <Calendar>\n"@
        + "            <UID>1</UID>\n"@
        + "            <Name>Standard</Name>\n"@
        + "            <IsBaseCalendar>1</IsBaseCalendar>\n"@
        + "        </Calendar>\n"@
        + "    </Calendars>\n"@
        + "    <Tasks>\n"@
        + xml_tasks(p.tasks@, percents, p.tasks@.len() as int)
        + "\n    </Tasks>\n"@
        + "</Project>\n"@
}

fn push_flag(out: &mut String, b: bool)
    ensures
        final(out)@ == old(out)@ + xml_flag(b),
{
    if b {
        push_str(out, "1");
    } else {
        push_str(out, "0");
    }
}

fn duration_xml(task: &TaskSnapshot) -> (r: String)
    requires
        duration_defined(*task),
    ensures
        r@ == xml_duration(*task),
{
    if task.milestone {
        String::from_str("PT0H0M0S")
    } else {
        let days = task.duration_days();
        let mut out = String::from_str("PT");
        push_decimal(&mut out, (days * 8) as u64);
        push_str(&mut out, "H0M0S");
        out
    }
}

fn links_xml(preds: &Vec<usize>) -> (r: String)
    ensures
        r@ == xml_links(preds@),
{
    let code = predecessor_type_code(DependencyRelation::Fs);
    let mut out = String::new();
    let mut i: usize = 0;
    while i < preds.len()
        invariant
            i <= preds.len(),
            code == relation_code(DependencyRelation::Fs),
            out@ == xml_links(preds@.subrange(0, i as int)),
        decreases preds.len() - i,
    {
        let mut link = String::from_str("            <PredecessorLink>\n");
        push_str(&mut link, "                <PredecessorUID>");
        push_decimal(&mut link, preds[i] as u64);
        push_str(&mut link, "</PredecessorUID>\n");
        push_str(&mut link, "                <CrossProject>0</CrossProject>\n");
        push_str(&mut link, "                <Type>");
        push_signed_decimal(&mut link, code as i64);
        push_str(&mut link, "</Type>\n");
        push_str(&mut link, "            </PredecessorLink>\n");
        assert(link@ == xml_link(preds@[i as int]));
        push_str(&mut out, link.as_str());
        proof {
            let s = preds@.subrange(0, i + 1);
            assert(s.drop_last() =~= preds@.subrange(0, i as int));
        }
        i = i + 1;
    }
    assert(preds@.subrange(0, preds.len() as int) =~= preds@);
    out
}

/// The `<Task>` element of one task.
fn task_xml(task: &TaskSnapshot, outline: &str, percent: i32) -> (r: String)
    requires
        duration_defined(*task),
        task.indent < usize::MAX,
    ensures
        r@ == xml_task(*task, outline@, percent as int),
{
    reveal(xml_task);
    let start = task.start.datetime_text(8, 0, 0);
    let finish = task.finish.datetime_text(17, 0, 0);
    let duration = duration_xml(task);
    let name = escape_xml(task.name.as_str());
    let links = links_xml(&task.predecessors);
    let mut b = String::from_str("        <Task>\n");
    push_str(&mut b, "            <UID>");
    push_decimal(&mut b, task.number as u64);
    push_str(&mut b, "</UID>\n");
    push_str(&mut b, "            <ID>");
    push_decimal(&mut b, task.number as u64);
    push_str(&mut b, "</ID>\n");
    push_str(&mut b, "            <Name>");
    push_str(&mut b, name.as_str());
    push_str(&mut b, "</Name>\n");
    push_str(&mut b, "            <Type>");
    push_flag(&mut b, task.summary);
    push_str(&mut b, "</Type>\n");
    push_str(&mut b, "            <IsNull>0</IsNull>\n");
    push_str(&mut b, "            <CreateDate>");
    push_str(&mut b, start.as_str());
    push_str(&mut b, "</CreateDate>\n");
    push_str(&mut b, "            <WBS>");
    push_str(&mut b, outline);
    push_str(&mut b, "</WBS>\n");
    push_str(&mut b, "            <OutlineNumber>");
    push_str(&mut b, outline);
    push_str(&mut b, "</OutlineNumber>\n");
    push_str(&mut b, "            <OutlineLevel>");
    push_decimal(&mut b, (task.indent + 1) as u64);
    push_str(&mut b, "</OutlineLevel>\n");
    push_str(&mut b, "            <Priority>500</Priority>\n");
    push_str(&mut b, "            <Start>");
    push_str(&mut b, start.as_str());
    push_str(&mut b, "</Start>\n");
    push_str(&mut b, "            <Finish>");
    push_str(&mut b, finish.as_str());
    push_str(&mut b, "</Finish>\n");
    push_str(&mut b, "            <Duration>");
    push_str(&mut b, duration.as_str());
    push_str(&mut b, "</Duration>\n");
    push_str(&mut b, "            <DurationFormat>7</DurationFormat>\n");
    push_str(&mut b, "            <Resume>");
    push_str(&mut b, start.as_str());
    push_str(&mut b, "</Resume>\n");
    push_str(&mut b, "            <ResumeValid>0</ResumeValid>\n");
    push_str(&mut b, "            <EffortDriven>1</EffortDriven>\n");
    push_str(&mut b, "            <Recurring>0</Recurring>\n");
    push_str(&mut b, "            <OverAllocated>0</OverAllocated>\n");
    push_str(&mut b, "            <Estimated>0</Estimated>\n");
    push_str(&mut b, "            <Milestone>");
    push_flag(&mut b, task.milestone);
    push_str(&mut b, "</Milestone>\n");
    push_str(&mut b, "            <Summary>");
    push_flag(&mut b, task.summary);
    push_str(&mut b, "</Summary>\n");
    push_str(&mut b, "            <Critical>0</Critical>\n");
    push_str(&mut b, "            <IsSubproject>0</IsSubproject>\n");
    push_str(&mut b, "            <IsSubprojectReadOnly>0</IsSubprojectReadOnly>\n");
    push_str(&mut b, "            <ExternalTask>0</ExternalTask>\n");
    push_str(&mut b, "            <FixedCostAccrual>3</FixedCostAccrual>\n");
    push_str(&mut b, "            <PercentComplete>");
    push_signed_decimal(&mut b, percent as i64);
    push_str(&mut b, "</PercentComplete>\n");
    push_str(&mut b, "            <PercentWorkComplete>");
    push_signed_decimal(&mut b, percent as i64);
    push_str(&mut b, "</PercentWorkComplete>\n");
    push_str(&mut b, "            <RemainingDuration>");
    push_str(&mut b, duration.as_str());
    push_str(&mut b, "</RemainingDuration>\n");
    push_str(&mut b, "            <Rollup>0</Rollup>\n");
    push_str(&mut b, "            <EarnedValueMethod>0</EarnedValueMethod>\n");
    push_str(&mut b, links.as_str());
    push_str(&mut b, "            <Active>1</Active>\n");
    push_str(&mut b, "            <Manual>0</Manual>\n");
    push_str(&mut b, "        </Task>\n");
    b
}

/// The `<Task>` elements of all tasks, in outline order; `percents` holds the
/// percentage complete of each task.
pub fn build_tasks_xml(snapshot: &ProjectSnapshot, percents: &Vec<i32>) -> (r: String)
    requires
        percents.len() == snapshot.tasks.len(),
        exportable(snapshot.tasks@),
    ensures
        r@ == xml_tasks(snapshot.tasks@, percents@, snapshot.tasks.len() as int),
{
    let tasks = &snapshot.tasks;
    let outlines = outline_numbers(tasks);
    let mut out = String::new();
    let mut i: usize = 0;
    while i < tasks.len()
        invariant
            i <= tasks.len(),
            tasks == &snapshot.tasks,
            percents.len() == tasks.len(),
            exportable(tasks@),
            outlines.len() == tasks.len(),
            forall|k: int| 0 <= k < tasks.len() ==> (#[trigger] outlines@[k])@ == outline_number(tasks@, k),
            out@ == xml_tasks(tasks@, percents@, i as int),
        decreases tasks.len() - i,
    {
        assert(duration_defined(tasks@[i as int]));
        let block = task_xml(&tasks[i], outlines[i].as_str(), percents[i]);
        assert(outlines@[i as int]@ == outline_number(tasks@, i as int));
        push_str(&mut out, block.as_str());
        i = i + 1;
    }
    out
}

/// The MSPDI XML document of a project; `percents` holds the percentage
/// complete of each task.
pub fn build_mspdi_xml(snapshot: &ProjectSnapshot, percents: &Vec<i32>) -> (r: String)
    requires
        percents.len() == snapshot.tasks.len(),
        exportable(snapshot.tasks@),
    ensures
        r@ == mspdi_xml_spec(*snapshot, percents@),
{
    let tasks = build_tasks_xml(snapshot, percents);
    let start = snapshot.start_date.datetime_text(8, 0, 0);
    let finish = snapshot.end_date.datetime_text(17, 0, 0);
    let mut b = String::from_str("<?xml version=\"1.0\" encoding=\"UTF-8\" standalone=\"yes\"?>\n");
    push_str(&mut b, "<Project xmlns=\"http://schemas.microsoft.com/project\">\n");
    push_str(&mut b, "    <SaveVersion>12</SaveVersion>\n");
    push_str(&mut b, "    <Name>ProjectLibre</Name>\n");
    push_str(&mut b, "    <Title>ProjectLibre</Title>\n");
    push_str(&mut b, "    <ScheduleFromStart>1</ScheduleFromStart>\n");
    push_str(&mut b, "    <StartDate>");
    push_str(&mut b, start.as_str());
    push_str(&mut b, "</StartDate>\n");
    push_str(&mut b, "    <FinishDate>");
    push_str(&mut b, finish.as_str());
    push_str(&mut b, "</FinishDate>\n");
    push_str(&mut b, "    <CalendarUID>1</CalendarUID>\n");
    push_str(&mut b, "    <Calendars>\n");
    push_str(&mut b, "        <Calendar>\n");
    push_str(&mut b, "            <UID>1</UID>\n");
    push_str(&mut b, "            <Name>Standard</Name>\n");
    push_str(&mut b, "            <IsBaseCalendar>1</IsBaseCalendar>\n");
    push_str(&mut b, "        </Calendar>\n");
    push_str(&mut b, "    </Calendars>\n");
    push_str(&mut b, "    <Tasks>\n");
    push_str(&mut b, tasks.as_str());
    push_str(&mut b, "\n    </Tasks>\n");
    push_str(&mut b, "</Project>\n");
    b
}

/// The bytes of the POD file of a project: the POD header, the separator and
/// the project's MSPDI document.
pub fn build_pod_bytes(snapshot: &ProjectSnapshot, percents: &Vec<i32>) -> (r: Vec<u8>)
    requires
        percents.len() == snapshot.tasks.len(),
        exportable(snapshot.tasks@),
    ensures
        r@ == pod_file_spec(encode_utf8(mspdi_xml_spec(*snapshot, percents@))),
{
    let xml = build_mspdi_xml(snapshot, percents);
    pod_file_bytes(xml.as_str())
}

/// Reading back the POD file of a project gives the UTF-8 bytes of the
/// project's MSPDI document.
pub proof fn lemma_pod_export_round_trip(p: ProjectSnapshot, percents: Seq<i32>)
    ensures
        embedded_xml_spec(pod_file_spec(encode_utf8(mspdi_xml_spec(p, percents))))
            == Ok::<Seq<u8>, PodError>(encode_utf8(mspdi_xml_spec(p, percents))),
{
    let x = mspdi_xml_spec(p, percents);
    reveal_strlit("<?xml version=\"1.0\" encoding=\"UTF-8\" standalone=\"yes\"?>\n");
    assert(x.len() > 0);
    assert(encode_utf8(x).len() > 0);
    lemma_pod_payload_round_trip(encode_utf8(x));
}

} // verus!
