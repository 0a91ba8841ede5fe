use rustyproject::calendar::Date;
use rustyproject::model::{ProjectSnapshot, TaskSnapshot};

fn date(y: i32, m: u32, d: u32) -> Date {
    Date::from_ymd(y, m, d).expect("date")
}

fn plain(number: usize, start: Date, finish: Date) -> TaskSnapshot {
    TaskSnapshot {
        number,
        name: format!("Task {number}"),
        start,
        finish,
        progress_bits: 0,
        indent: 0,
        summary: false,
        milestone: false,
        predecessors: Vec::new(),
        resource_names: Vec::new(),
        start_text: None,
        finish_text: None,
        duration_text: None,
        notes: None,
        deadline: None,
    }
}

#[test]
fn public_task_display_fallbacks_stay_stable() {
    let task = TaskSnapshot {
        number: 1,
        name: "Test".to_string(),
        start: Date::from_ymd(2024, 6, 1).expect("date"),
        finish: Date::from_ymd(2024, 6, 10).expect("date"),
        progress_bits: 1.0f32.to_bits(),
        indent: 0,
        summary: true,
        milestone: false,
        predecessors: Vec::new(),
        resource_names: vec!["R1".to_string()],
        start_text: None,
        finish_text: None,
        duration_text: None,
        notes: Some("notes".to_string()),
        deadline: Some(Date::from_ymd(2024, 6, 5).expect("date")),
    };

    assert!(task.has_notes());
    assert!(task.missed_deadline());
    assert_eq!(task.resource_names_label(), "R1");
    assert_eq!(task.duration_label(), "6 days");
}

#[test]
fn labels_fall_back_to_dates_and_working_days() {
    let mut task = plain(1, date(2025, 1, 29), date(2025, 1, 29));
    assert_eq!(task.start_label(), "2025/01/29 8:00");
    assert_eq!(task.finish_label(), "2025/01/29 17:00");
    assert_eq!(task.duration_days(), 1);
    assert_eq!(task.duration_label(), "1 day");
    task.milestone = true;
    assert_eq!(task.duration_days(), 0);
    assert_eq!(task.duration_label(), "0 days");
    task.milestone = false;
    task.start_text = Some("  ".to_string());
    task.finish_text = Some("Fri 1/31/25".to_string());
    task.duration_text = Some("3 days?".to_string());
    assert_eq!(task.start_label(), "2025/01/29 8:00");
    assert_eq!(task.finish_label(), "Fri 1/31/25");
    assert_eq!(task.duration_label(), "3 days?");
}

#[test]
fn weekend_only_task_has_no_working_days() {
    let task = plain(1, date(2025, 1, 11), date(2025, 1, 12));
    assert_eq!(task.duration_days(), 0);
    assert_eq!(task.duration_label(), "0 days");
    let backwards = plain(2, date(2025, 1, 15), date(2025, 1, 10));
    assert_eq!(backwards.duration_days(), 0);
}

#[test]
fn notes_deadlines_and_resources() {
    let mut task = plain(1, date(2025, 3, 3), date(2025, 3, 7));
    assert!(!task.has_notes());
    task.notes = Some(" \t".to_string());
    assert!(!task.has_notes());
    task.notes = Some("call".to_string());
    assert!(task.has_notes());
    assert!(!task.missed_deadline());
    task.deadline = Some(date(2025, 3, 7));
    assert!(!task.missed_deadline());
    task.deadline = Some(date(2025, 3, 6));
    assert!(task.missed_deadline());
    assert_eq!(task.resource_names_label(), "");
    task.resource_names = vec!["Ann".to_string(), "Bo".to_string(), "Cy".to_string()];
    assert_eq!(task.resource_names_label(), "Ann, Bo, Cy");
}

#[test]
fn project_bounds_and_lookup() {
    let empty = ProjectSnapshot::from_tasks(Vec::new());
    assert_eq!(empty.start_date, date(2025, 1, 1));
    assert_eq!(empty.end_date, date(2025, 1, 1));
    assert_eq!(empty.next_task_id(), 1);

    let project = ProjectSnapshot::from_tasks(vec![
        plain(4, date(2025, 2, 3), date(2025, 2, 7)),
        plain(9, date(2025, 1, 27), date(2025, 1, 28)),
        plain(4, date(2025, 3, 3), date(2025, 3, 4)),
    ]);
    assert_eq!(project.start_date, date(2025, 1, 27));
    assert_eq!(project.end_date, date(2025, 3, 4));
    assert_eq!(project.next_task_id(), 10);
    assert_eq!(project.task_index(4), Some(0));
    assert_eq!(project.task_index(9), Some(1));
    assert_eq!(project.task_index(5), None);
    assert_eq!(project.task(9).map(|t| t.start), Some(date(2025, 1, 27)));
    assert!(project.task(5).is_none());
}

#[test]
fn inserting_and_removing_tasks_renormalizes() {
    let mut project = ProjectSnapshot::from_tasks(vec![
        plain(1, date(2025, 2, 3), date(2025, 2, 4)),
        plain(2, date(2025, 2, 5), date(2025, 2, 6)),
    ]);
    project.insert_task_after(0, plain(3, date(2025, 2, 8), date(2025, 2, 9)));
    assert_eq!(
        project.tasks.iter().map(|t| t.number).collect::<Vec<_>>(),
        vec![1, 3, 2]
    );
    assert_eq!(project.tasks[1].start, date(2025, 2, 8));
    project.insert_task_after(10, plain(4, date(2025, 2, 10), date(2025, 2, 10)));
    assert_eq!(project.tasks.last().map(|t| t.number), Some(4));
    assert_eq!(project.end_date, date(2025, 2, 10));

    project.tasks[1].summary = true;
    project.tasks[2].indent = 1;
    project.normalize();
    assert_eq!(project.tasks[1].start, date(2025, 2, 5));
    project.remove_subtree_at(1);
    assert_eq!(
        project.tasks.iter().map(|t| t.number).collect::<Vec<_>>(),
        vec![1, 4]
    );
    let before = project.tasks.len();
    project.remove_subtree_at(5);
    assert_eq!(project.tasks.len(), before);
}

#[test]
fn display_texts_are_cleared_and_unnamed_rows_dropped() {
    let mut first = plain(0, date(2025, 2, 3), date(2025, 2, 4));
    first.name = String::new();
    let mut second = plain(0, date(2025, 2, 5), date(2025, 2, 6));
    second.name = "Kept".to_string();
    second.start_text = Some("Wed".to_string());
    let third = plain(7, date(2025, 2, 7), date(2025, 2, 7));
    let mut project = ProjectSnapshot::from_tasks(vec![first, second, third]);
    project.clear_display_texts();
    assert!(project.tasks[1].start_text.is_none());
    project.drop_unnamed_and_normalize();
    assert_eq!(
        project.tasks.iter().map(|t| t.name.clone()).collect::<Vec<_>>(),
        vec!["Kept".to_string(), "Task 7".to_string()]
    );
    assert_eq!(project.start_date, date(2025, 2, 5));
}

#[test]
fn sample_plan_is_rolled_up_and_numbered() {
    let sample = ProjectSnapshot::sample();
    assert_eq!(sample.tasks.len(), 30);
    assert_eq!(sample.tasks[0].number, 32);
    assert_eq!(sample.tasks[29].number, 61);
    assert_eq!(sample.tasks[0].name, "Construction");
    assert_eq!(sample.tasks[29].name, "Substantial completion");
    assert_eq!(sample.start_date, date(2025, 1, 29));
    assert_eq!(sample.end_date, date(2025, 3, 21));
    assert_eq!(sample.tasks[1].start, date(2025, 1, 29));
    assert_eq!(sample.tasks[1].finish, date(2025, 2, 6));
    assert_eq!(sample.tasks[27].predecessors, vec![55, 58]);
    assert_eq!(f32::from_bits(sample.tasks[0].progress_bits), 0.43);
    assert!(sample.tasks[6].milestone);
}

#[test]
fn bar_labels_follow_the_task_kind() {
    let mut t = plain(1, date(2025, 1, 6), date(2025, 1, 7));
    assert_eq!(t.bar_label(), None);
    t.resource_names = vec!["Crew".to_string(), "Crane".to_string()];
    assert_eq!(t.bar_label(), Some("Crew, Crane".to_string()));
    t.summary = true;
    assert_eq!(t.bar_label(), None);
    t.summary = false;
    t.milestone = true;
    assert_eq!(t.bar_label(), Some("2025/01/07 17:00".to_string()));
    t.finish_text = Some("Tue 1/7/25".to_string());
    assert_eq!(t.bar_label(), Some("Tue 1/7/25".to_string()));
    t.milestone = false;
    t.resource_names = vec!["  ".to_string()];
    assert_eq!(t.bar_label(), None);
}
