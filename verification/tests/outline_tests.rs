use rustyproject::calendar::Date;
use rustyproject::model::TaskSnapshot;
use rustyproject::outline::{
    build_visible_rows, build_wbs_codes, month_label, month_spans, outline_numbers,
    subtree_end_index, subtree_task_ids,
};
use std::collections::HashSet;

fn date(y: i32, m: u32, d: u32) -> Date {
    Date::from_ymd(y, m, d).expect("date")
}

fn task(number: usize, name: &str, indent: usize, summary: bool) -> TaskSnapshot {
    TaskSnapshot {
        number,
        name: name.to_string(),
        start: date(2025, 2, 3),
        finish: date(2025, 2, 3),
        progress_bits: 0.0f32.to_bits(),
        indent,
        summary,
        milestone: false,
        predecessors: vec![],
        resource_names: vec![],
        start_text: None,
        finish_text: None,
        duration_text: None,
        notes: None,
        deadline: None,
    }
}

#[test]
fn month_label_matches_java_style_abbreviation() {
    assert_eq!(month_label(2), "Feb");
    assert_eq!(month_label(12), "Dec");
}

#[test]
fn month_label_covers_every_month_and_nothing_else() {
    let expected = [
        "Jan", "Feb", "Mar", "Apr", "May", "Jun", "Jul", "Aug", "Sep", "Oct", "Nov", "Dec",
    ];
    for (i, name) in expected.iter().enumerate() {
        assert_eq!(month_label(i as u32 + 1), *name);
    }
    assert_eq!(month_label(0), "");
    assert_eq!(month_label(13), "");
}

#[test]
fn collapsed_summary_hides_descendants_until_the_outline_returns_to_the_same_level() {
    let tasks = vec![
        task(1, "Root", 0, true),
        task(2, "Child", 1, false),
        task(3, "Sibling", 0, false),
    ];

    let visible = build_visible_rows(&tasks, &HashSet::from([1]));
    assert_eq!(
        visible.iter().map(|row| row.task_index).collect::<Vec<_>>(),
        vec![0, 2]
    );
}

#[test]
fn expanded_tree_shows_every_row() {
    let tasks = vec![
        task(1, "Root", 0, true),
        task(2, "Child", 1, true),
        task(3, "Grandchild", 2, false),
        task(4, "Sibling", 0, false),
    ];
    let visible = build_visible_rows(&tasks, &HashSet::new());
    assert_eq!(
        visible.iter().map(|row| row.task_index).collect::<Vec<_>>(),
        vec![0, 1, 2, 3]
    );
    let visible = build_visible_rows(&tasks, &HashSet::from([2]));
    assert_eq!(
        visible.iter().map(|row| row.task_index).collect::<Vec<_>>(),
        vec![0, 1, 3]
    );
}

#[test]
fn collapsed_number_of_a_plain_task_hides_nothing() {
    let tasks = vec![task(1, "Leaf", 0, false), task(2, "Deeper", 1, false)];
    let visible = build_visible_rows(&tasks, &HashSet::from([1]));
    assert_eq!(visible.len(), 2);
}

#[test]
fn subtree_spans_the_deeper_rows_that_follow() {
    let tasks = vec![
        task(1, "Root", 0, true),
        task(2, "Child", 1, false),
        task(3, "Child 2", 1, false),
        task(4, "Next", 0, false),
    ];
    assert_eq!(subtree_end_index(&tasks, 0), 2);
    assert_eq!(subtree_end_index(&tasks, 1), 1);
    assert_eq!(subtree_end_index(&tasks, 3), 3);
    assert_eq!(subtree_task_ids(&tasks, 0), HashSet::from([1, 2, 3]));
    assert_eq!(subtree_task_ids(&tasks, 3), HashSet::from([4]));
}

#[test]
fn wbs_codes_and_outline_numbers_count_siblings() {
    let tasks = vec![
        task(1, "A", 0, true),
        task(2, "A.1", 1, false),
        task(3, "A.2", 1, true),
        task(4, "A.2.1", 2, false),
        task(5, "B", 0, false),
        task(6, "B deep", 2, false),
    ];
    assert_eq!(
        build_wbs_codes(&tasks),
        vec!["1", "1.1", "1.2", "1.2.1", "2", "2.0.1"]
    );
    assert_eq!(
        outline_numbers(&tasks),
        vec!["1", "1.1", "1.2", "1.2.1", "2", "2.1"]
    );
}

#[test]
fn month_spans_split_at_month_changes() {
    let spans = month_spans(date(2025, 1, 29), date(2025, 3, 3));
    let labels: Vec<(String, Date, Date)> = vec![
        ("Jan 2025".to_string(), date(2025, 1, 29), date(2025, 1, 31)),
        ("Feb 2025".to_string(), date(2025, 2, 1), date(2025, 2, 28)),
        ("Mar 2025".to_string(), date(2025, 3, 1), date(2025, 3, 3)),
    ];
    assert_eq!(spans, labels);
    assert!(month_spans(date(2025, 3, 3), date(2025, 1, 1)).is_empty());
    assert_eq!(
        month_spans(date(2024, 12, 31), date(2024, 12, 31)),
        vec![("Dec 2024".to_string(), date(2024, 12, 31), date(2024, 12, 31))]
    );
}
