use rustyproject::calendar::Date;
use rustyproject::export::{
    build_mspdi_xml, build_pod_bytes, build_tasks_xml, escape_xml, extract_embedded_xml,
    find_subsequence, pod_file_bytes, pod_prefix_bytes, pod_separator_bytes, PodError,
};
use rustyproject::model::{ProjectSnapshot, TaskSnapshot};

const SEPARATOR: &[u8] = b"@@@@@@@@@@ProjectLibreSeparator_MSXML@@@@@@@@@@";
const PREFIX: &[u8] = &[
    0xAC, 0xED, 0x00, 0x05, 0x74, 0x00, 0x05, 0x31, 0x2E, 0x30, 0x2E, 0x30,
];

fn date(y: i32, m: u32, d: u32) -> Date {
    Date::from_ymd(y, m, d).expect("date")
}

fn percents(snapshot: &ProjectSnapshot) -> Vec<i32> {
    snapshot
        .tasks
        .iter()
        .map(|t| (f32::from_bits(t.progress_bits).clamp(0.0, 1.0) * 100.0).round() as i32)
        .collect()
}

#[test]
fn pod_file_starts_with_java_stream_magic_and_separator() {
    let snapshot = ProjectSnapshot::sample();
    let bytes = build_pod_bytes(&snapshot, &percents(&snapshot));
    assert!(bytes.starts_with(PREFIX));
    assert!(bytes
        .windows(SEPARATOR.len())
        .any(|window| window == SEPARATOR));
    let xml = extract_embedded_xml(&bytes).expect("embedded XML");
    assert_eq!(
        xml,
        build_mspdi_xml(&snapshot, &percents(&snapshot)).into_bytes()
    );
}

#[test]
fn xml_output_is_plain_mspdi_document() {
    let snapshot = ProjectSnapshot::sample();
    let xml = build_mspdi_xml(&snapshot, &percents(&snapshot));
    assert!(xml.starts_with("<?xml"));
    assert!(xml.contains("<Project xmlns=\"http://schemas.microsoft.com/project\">"));
    assert!(xml.contains("<Tasks>"));
    assert!(xml.contains("    <StartDate>2025-01-29T08:00:00</StartDate>\n"));
    assert!(xml.contains("    <FinishDate>2025-03-21T17:00:00</FinishDate>\n"));
    assert_eq!(xml.matches("<Task>").count(), 30);
    assert!(xml.ends_with("        </Task>\n\n    </Tasks>\n</Project>\n"));
}

#[test]
fn task_element_has_the_exact_layout() {
    let task = TaskSnapshot {
        number: 7,
        name: "Pour <slab> & \"cure\" 'it'".to_string(),
        start: date(2025, 2, 3),
        finish: date(2025, 2, 5),
        progress_bits: 0.5f32.to_bits(),
        indent: 1,
        summary: false,
        milestone: false,
        predecessors: vec![3, 4],
        resource_names: Vec::new(),
        start_text: None,
        finish_text: None,
        duration_text: None,
        notes: None,
        deadline: None,
    };
    let mut parent = task.clone();
    parent.number = 3;
    parent.name = "Parent".to_string();
    parent.indent = 0;
    parent.summary = true;
    parent.predecessors = Vec::new();
    let snapshot = ProjectSnapshot::from_tasks(vec![parent, task]);
    let xml = build_tasks_xml(&snapshot, &vec![0, 50]);
    let expected_task = "        <Task>
            <UID>7</UID>
            <ID>7</ID>
            <Name>Pour &lt;slab&gt; &amp; &quot;cure&quot; &apos;it&apos;</Name>
            <Type>0</Type>
            <IsNull>0</IsNull>
            <CreateDate>2025-02-03T08:00:00</CreateDate>
            <WBS>1.1</WBS>
            <OutlineNumber>1.1</OutlineNumber>
            <OutlineLevel>2</OutlineLevel>
            <Priority>500</Priority>
            <Start>2025-02-03T08:00:00</Start>
            <Finish>2025-02-05T17:00:00</Finish>
            <Duration>PT24H0M0S</Duration>
            <DurationFormat>7</DurationFormat>
            <Resume>2025-02-03T08:00:00</Resume>
            <ResumeValid>0</ResumeValid>
            <EffortDriven>1</EffortDriven>
            <Recurring>0</Recurring>
            <OverAllocated>0</OverAllocated>
            <Estimated>0</Estimated>
            <Milestone>0</Milestone>
            <Summary>0</Summary>
            <Critical>0</Critical>
            <IsSubproject>0</IsSubproject>
            <IsSubprojectReadOnly>0</IsSubprojectReadOnly>
            <ExternalTask>0</ExternalTask>
            <FixedCostAccrual>3</FixedCostAccrual>
            <PercentComplete>50</PercentComplete>
            <PercentWorkComplete>50</PercentWorkComplete>
            <RemainingDuration>PT24H0M0S</RemainingDuration>
            <Rollup>0</Rollup>
            <EarnedValueMethod>0</EarnedValueMethod>
            <PredecessorLink>
                <PredecessorUID>3</PredecessorUID>
                <CrossProject>0</CrossProject>
                <Type>1</Type>
            </PredecessorLink>
            <PredecessorLink>
                <PredecessorUID>4</PredecessorUID>
                <CrossProject>0</CrossProject>
                <Type>1</Type>
            </PredecessorLink>
            <Active>1</Active>
            <Manual>0</Manual>
        </Task>
";
    assert!(xml.starts_with("        <Task>\n            <UID>3</UID>\n"));
    assert!(xml.contains("            <Type>1</Type>\n            <IsNull>0</IsNull>\n"));
    assert!(xml.ends_with(expected_task));
}

#[test]
fn milestone_has_no_duration() {
    let task = TaskSnapshot {
        number: 1,
        name: "Done".to_string(),
        start: date(2025, 2, 3),
        finish: date(2025, 2, 3),
        progress_bits: 1.0f32.to_bits(),
        indent: 0,
        summary: false,
        milestone: true,
        predecessors: Vec::new(),
        resource_names: Vec::new(),
        start_text: None,
        finish_text: None,
        duration_text: None,
        notes: None,
        deadline: None,
    };
    let snapshot = ProjectSnapshot::from_tasks(vec![task]);
    let xml = build_tasks_xml(&snapshot, &vec![100]);
    assert!(xml.contains("<Duration>PT0H0M0S</Duration>"));
    assert!(xml.contains("<RemainingDuration>PT0H0M0S</RemainingDuration>"));
    assert!(xml.contains("<Milestone>1</Milestone>"));
    assert!(xml.contains("<PercentComplete>100</PercentComplete>"));
}

#[test]
fn escaping_replaces_the_five_xml_characters() {
    assert_eq!(escape_xml("a&b<c>d\"e'f"), "a&amp;b&lt;c&gt;d&quot;e&apos;f");
    assert_eq!(escape_xml("plain text é"), "plain text é");
    assert_eq!(escape_xml(""), "");
}

#[test]
fn finding_a_subsequence_returns_the_first_match() {
    assert_eq!(find_subsequence(b"abcabc", b"bc"), Some(1));
    assert_eq!(find_subsequence(b"abcabc", b"cab"), Some(2));
    assert_eq!(find_subsequence(b"abc", b"abcd"), None);
    assert_eq!(find_subsequence(b"abc", b"x"), None);
    assert_eq!(find_subsequence(b"abc", b""), Some(0));
    assert_eq!(find_subsequence(b"", b""), Some(0));
}

#[test]
fn embedded_xml_errors() {
    assert_eq!(
        extract_embedded_xml(b"no separator here"),
        Err(PodError::SeparatorNotFound)
    );
    let mut only_header = PREFIX.to_vec();
    only_header.extend_from_slice(SEPARATOR);
    assert_eq!(
        extract_embedded_xml(&only_header),
        Err(PodError::NoEmbeddedXml)
    );
    let mut two = only_header.clone();
    two.extend_from_slice(b"<a/>");
    two.extend_from_slice(SEPARATOR);
    two.extend_from_slice(b"tail");
    let mut expected = b"<a/>".to_vec();
    expected.extend_from_slice(SEPARATOR);
    expected.extend_from_slice(b"tail");
    assert_eq!(extract_embedded_xml(&two), Ok(expected));
}

#[test]
fn pod_payload_round_trips() {
    let bytes = pod_file_bytes("<x>é</x>");
    assert_eq!(&bytes[..12], PREFIX);
    assert_eq!(pod_prefix_bytes(), PREFIX.to_vec());
    assert_eq!(pod_separator_bytes(), SEPARATOR.to_vec());
    assert_eq!(
        extract_embedded_xml(&bytes),
        Ok("<x>é</x>".as_bytes().to_vec())
    );
    assert_eq!(
        extract_embedded_xml(&pod_file_bytes("")),
        Err(PodError::NoEmbeddedXml)
    );
}
