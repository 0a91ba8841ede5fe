use rustyproject::calendar::Date;
use rustyproject::import::{MppDocument, MppTask};

fn report(finish: &str) -> MppDocument {
    MppDocument {
        start_date: "2025-01-06".to_string(),
        end_date: "2025-01-10".to_string(),
        tasks: vec![MppTask {
            id: 3,
            name: "Survey".to_string(),
            start: "2025-01-06".to_string(),
            finish: finish.to_string(),
            progress_bits: 0.5f32.to_bits(),
            indent: 2,
            summary: false,
            milestone: true,
            predecessors: vec![1, 2],
        }],
    }
}

#[test]
fn imported_tasks_keep_the_reported_values() {
    let snapshot = report("2025-01-10").into_snapshot();
    assert_eq!(snapshot.start_date, Date::from_ymd(2025, 1, 6).expect("date"));
    assert_eq!(snapshot.end_date, Date::from_ymd(2025, 1, 10).expect("date"));
    let t = &snapshot.tasks[0];
    assert_eq!(t.number, 3);
    assert_eq!(t.name, "Survey");
    assert_eq!(t.finish, Date::from_ymd(2025, 1, 10).expect("date"));
    assert_eq!(t.progress_bits, 0.5f32.to_bits());
    assert_eq!(t.indent, 2);
    assert!(t.milestone);
    assert_eq!(t.predecessors, vec![1, 2]);
    assert!(t.resource_names.is_empty());
    assert!(t.notes.is_none());
}

#[test]
fn unreadable_dates_are_refused() {
    assert!(report("2025-01-10").try_into_snapshot().is_some());
    assert!(report("10/01/2025").try_into_snapshot().is_none());
    let mut bad_range = report("2025-01-10");
    bad_range.end_date = "soon".to_string();
    assert!(bad_range.try_into_snapshot().is_none());
}
