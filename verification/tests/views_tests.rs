use rustyproject::calendar::Date;
use rustyproject::editing::summary_numbers;
use rustyproject::model::TaskSnapshot;
use rustyproject::outline::{build_visible_rows, direct_children, visible_links, LinkSegment};
use rustyproject::text::{parse_bool, split_on_char, strip_line_end_text, text_equal};
use std::collections::HashSet;

fn task(number: usize, indent: usize, summary: bool, predecessors: Vec<usize>) -> TaskSnapshot {
    let day = Date::from_ymd(2025, 2, 3).expect("date");
    TaskSnapshot {
        number,
        name: format!("T{number}"),
        start: day,
        finish: day,
        progress_bits: 0,
        indent,
        summary,
        milestone: false,
        predecessors,
        resource_names: Vec::new(),
        start_text: None,
        finish_text: None,
        duration_text: None,
        notes: None,
        deadline: None,
    }
}

#[test]
fn dependency_lines_join_shown_rows_only() {
    let tasks = vec![
        task(1, 0, true, vec![]),
        task(2, 1, false, vec![]),
        task(3, 0, false, vec![2, 1, 9]),
        task(4, 0, false, vec![3]),
    ];
    let rows = build_visible_rows(&tasks, &HashSet::new());
    assert_eq!(
        visible_links(&tasks, &rows),
        vec![
            LinkSegment { from_index: 1, from_row: 1, to_index: 2, to_row: 2 },
            LinkSegment { from_index: 0, from_row: 0, to_index: 2, to_row: 2 },
            LinkSegment { from_index: 2, from_row: 2, to_index: 3, to_row: 3 },
        ]
    );
    let rows = build_visible_rows(&tasks, &HashSet::from([1]));
    assert_eq!(
        visible_links(&tasks, &rows),
        vec![
            LinkSegment { from_index: 0, from_row: 0, to_index: 2, to_row: 1 },
            LinkSegment { from_index: 2, from_row: 1, to_index: 3, to_row: 2 },
        ]
    );
}

#[test]
fn children_and_summaries() {
    let tasks = vec![
        task(1, 0, true, vec![]),
        task(2, 1, true, vec![]),
        task(3, 2, false, vec![]),
        task(4, 1, false, vec![]),
        task(5, 0, true, vec![]),
    ];
    assert_eq!(direct_children(&tasks, 0), vec![1, 3]);
    assert_eq!(direct_children(&tasks, 1), vec![2]);
    assert!(direct_children(&tasks, 4).is_empty());
    assert_eq!(summary_numbers(&tasks), HashSet::from([1, 2, 5]));
}

#[test]
fn line_helpers_match_std() {
    for (text, sep) in [("a\tb\t", '\t'), ("", ','), (",x,,", ','), ("no sep", ';')] {
        let ours = split_on_char(text, sep);
        let std: Vec<String> = text.split(sep).map(|s| s.to_string()).collect();
        assert_eq!(ours, std);
    }
    assert_eq!(strip_line_end_text("END\r\n\n"), "END");
    assert_eq!(strip_line_end_text("a\rb\n"), "a\rb");
    assert!(text_equal("END", "END"));
    assert!(!text_equal("END", "END "));
    assert_eq!(parse_bool("true"), Some(true));
    assert_eq!(parse_bool("false"), Some(false));
    assert_eq!(parse_bool("True"), None);
    for text in ["true", "false", "True", "", " false"] {
        assert_eq!(parse_bool(text), text.parse::<bool>().ok());
    }
}
