use rustyproject::calendar::Date;
use rustyproject::model::{ProjectSnapshot, TaskSnapshot};
use rustyproject::project::apply_edit;
use rustyproject::schedule::{
    enforce_dependency_constraints, normalize_calendar, recompute_summary_ranges, EditCommand,
};

fn date(value: &str) -> Date {
    Date::parse_ymd(value).expect("date")
}

fn task(
    number: usize,
    name: &str,
    start: &str,
    finish: &str,
    progress: f32,
    indent: usize,
    summary: bool,
    predecessors: Vec<usize>,
) -> TaskSnapshot {
    TaskSnapshot {
        number,
        name: name.into(),
        start: date(start),
        finish: date(finish),
        progress_bits: progress.to_bits(),
        indent,
        summary,
        milestone: false,
        predecessors,
        resource_names: vec![],
        start_text: None,
        finish_text: None,
        duration_text: None,
        notes: None,
        deadline: None,
    }
}

#[test]
fn summary_range_rolls_up_children() {
    let mut snapshot = ProjectSnapshot::from_tasks(vec![
        task(1, "Summary", "2025-01-01", "2025-01-01", 0.0, 0, true, vec![]),
        task(2, "Child A", "2025-01-02", "2025-01-03", 0.5, 1, false, vec![]),
        task(3, "Child B", "2025-01-05", "2025-01-06", 1.0, 1, false, vec![]),
    ]);

    recompute_summary_ranges(&mut snapshot.tasks);
    assert_eq!(snapshot.tasks[0].start, date("2025-01-02"));
    assert_eq!(snapshot.tasks[0].finish, date("2025-01-06"));
}

#[test]
fn dependency_constraints_push_followers_forward() {
    let mut snapshot = ProjectSnapshot::from_tasks(vec![
        task(1, "A", "2025-01-01", "2025-01-02", 0.0, 0, false, vec![]),
        task(2, "B", "2025-01-01", "2025-01-01", 0.0, 0, false, vec![1]),
    ]);

    apply_edit(
        &mut snapshot,
        EditCommand::Move {
            id: 1,
            start: date("2025-01-10"),
            finish: date("2025-01-11"),
        },
    );
    assert!(snapshot.tasks[0].finish.lt(&snapshot.tasks[1].start));
}

#[test]
fn calendar_normalization_snaps_weekend_tasks_forward() {
    let mut snapshot = ProjectSnapshot::from_tasks(vec![task(
        1,
        "Weekend",
        "2025-01-11",
        "2025-01-13",
        0.0,
        0,
        false,
        vec![],
    )]);

    snapshot.normalize();

    assert_eq!(snapshot.tasks[0].start, date("2025-01-11"));
    assert_eq!(snapshot.tasks[0].finish, date("2025-01-13"));
}

#[test]
fn dependency_constraints_use_working_days() {
    let mut snapshot = ProjectSnapshot::from_tasks(vec![
        task(1, "Pred", "2025-01-09", "2025-01-10", 0.0, 0, false, vec![]),
        task(2, "Follower", "2025-01-11", "2025-01-13", 0.0, 0, false, vec![1]),
    ]);

    apply_edit(
        &mut snapshot,
        EditCommand::Move {
            id: 1,
            start: date("2025-01-16"),
            finish: date("2025-01-17"),
        },
    );

    assert_eq!(snapshot.tasks[1].start, date("2025-01-20"));
    assert_eq!(snapshot.tasks[1].finish, date("2025-01-20"));
}

#[test]
fn normalization_moves_a_finish_before_its_start_and_flattens_milestones() {
    let mut tasks = vec![
        task(1, "Backwards", "2025-01-15", "2025-01-10", 0.0, 0, false, vec![]),
        task(2, "Milestone", "2025-01-15", "2025-01-20", 0.0, 0, false, vec![]),
    ];
    tasks[1].milestone = true;
    normalize_calendar(&mut tasks);
    assert_eq!(tasks[0].start, date("2025-01-15"));
    assert_eq!(tasks[0].finish, date("2025-01-15"));
    assert_eq!(tasks[1].finish, date("2025-01-15"));
}

#[test]
fn enforcing_dependencies_keeps_unlinked_tasks_and_reports_success() {
    let tasks = vec![
        task(1, "A", "2025-01-06", "2025-01-08", 0.0, 0, false, vec![]),
        task(2, "B", "2025-01-06", "2025-01-07", 0.0, 0, false, vec![1]),
        task(3, "C", "2025-01-06", "2025-01-06", 0.0, 0, false, vec![]),
    ];
    let mut dates: Vec<(Date, Date)> = tasks.iter().map(|t| (t.start, t.finish)).collect();
    assert!(enforce_dependency_constraints(&tasks, &mut dates));
    assert_eq!(dates[0], (date("2025-01-06"), date("2025-01-08")));
    assert_eq!(dates[1], (date("2025-01-09"), date("2025-01-10")));
    assert_eq!(dates[2], (date("2025-01-06"), date("2025-01-06")));
}

#[test]
fn resize_and_progress_edits_change_the_target_task_only() {
    let mut snapshot = ProjectSnapshot::from_tasks(vec![
        task(1, "A", "2025-01-06", "2025-01-08", 0.0, 0, false, vec![]),
        task(2, "B", "2025-01-06", "2025-01-07", 0.0, 0, false, vec![]),
    ]);
    assert!(snapshot.checked_apply_edit(EditCommand::ResizeEnd {
        id: 1,
        finish: date("2025-01-10"),
    }));
    assert_eq!(snapshot.tasks[0].finish, date("2025-01-10"));
    assert_eq!(snapshot.tasks[1].finish, date("2025-01-07"));
    assert!(snapshot.checked_apply_edit(EditCommand::ResizeStart {
        id: 2,
        start: date("2025-01-07"),
    }));
    assert_eq!(snapshot.tasks[1].start, date("2025-01-07"));
    assert!(snapshot.checked_apply_edit(EditCommand::SetProgress {
        id: 2,
        progress_bits: 0.25f32.to_bits(),
    }));
    assert_eq!(f32::from_bits(snapshot.tasks[1].progress_bits), 0.25);
    assert_eq!(f32::from_bits(snapshot.tasks[0].progress_bits), 0.0);
    assert_eq!(snapshot.end_date, date("2025-01-10"));
}

#[test]
fn an_edit_of_an_unknown_task_only_reschedules() {
    let mut snapshot = ProjectSnapshot::from_tasks(vec![task(
        1, "A", "2025-01-06", "2025-01-08", 0.0, 0, false, vec![],
    )]);
    assert!(snapshot.checked_apply_edit(EditCommand::Move {
        id: 99,
        start: date("2025-02-03"),
        finish: date("2025-02-04"),
    }));
    assert_eq!(snapshot.tasks[0].start, date("2025-01-06"));
    assert_eq!(snapshot.tasks[0].finish, date("2025-01-08"));
}

#[test]
fn normalizing_twice_changes_nothing_more() {
    let mut snapshot = ProjectSnapshot::from_tasks(vec![
        task(1, "Phase", "2025-01-01", "2025-01-01", 0.0, 0, true, vec![]),
        task(2, "Late", "2025-01-20", "2025-01-10", 0.0, 1, false, vec![]),
        task(3, "Early", "2025-01-06", "2025-01-07", 0.0, 1, false, vec![]),
    ]);
    snapshot.normalize();
    let once: Vec<(Date, Date)> = snapshot.tasks.iter().map(|t| (t.start, t.finish)).collect();
    snapshot.normalize();
    let twice: Vec<(Date, Date)> = snapshot.tasks.iter().map(|t| (t.start, t.finish)).collect();
    assert_eq!(once, twice);
    assert_eq!(once[0], (date("2025-01-06"), date("2025-01-20")));
    for (start, finish) in once {
        assert!(start.le(&finish));
    }
}

#[test]
fn after_an_edit_followers_start_after_their_predecessors_finish() {
    let mut snapshot = ProjectSnapshot::from_tasks(vec![
        task(1, "A", "2025-01-06", "2025-01-07", 0.0, 0, false, vec![]),
        task(2, "B", "2025-01-08", "2025-01-09", 0.0, 0, false, vec![1]),
        task(3, "C", "2025-01-08", "2025-01-08", 0.0, 0, false, vec![2, 1]),
    ]);
    apply_edit(
        &mut snapshot,
        EditCommand::ResizeEnd {
            id: 1,
            finish: date("2025-01-14"),
        },
    );
    assert_eq!(snapshot.tasks[1].start, date("2025-01-15"));
    assert_eq!(snapshot.tasks[1].finish, date("2025-01-16"));
    assert_eq!(snapshot.tasks[2].start, date("2025-01-17"));
    assert!(snapshot.tasks[0].finish.lt(&snapshot.tasks[1].start));
    assert!(snapshot.tasks[1].finish.lt(&snapshot.tasks[2].start));
}

#[test]
fn the_free_edit_keeps_display_texts_and_the_method_clears_them() {
    let mut a = task(1, "A", "2025-01-06", "2025-01-07", 0.0, 0, false, vec![]);
    a.start_text = Some("Mon 1/6/25".to_string());
    a.finish_text = Some("Tue 1/7/25".to_string());
    a.duration_text = Some("2 days".to_string());
    let edit = EditCommand::ResizeEnd {
        id: 1,
        finish: date("2025-01-08"),
    };
    let mut kept = ProjectSnapshot::from_tasks(vec![a.clone()]);
    apply_edit(&mut kept, edit.clone());
    assert_eq!(kept.tasks[0].finish, date("2025-01-08"));
    assert_eq!(kept.tasks[0].start_text.as_deref(), Some("Mon 1/6/25"));
    assert_eq!(kept.tasks[0].duration_text.as_deref(), Some("2 days"));
    let mut cleared = ProjectSnapshot::from_tasks(vec![a]);
    cleared.apply_edit(edit);
    assert_eq!(cleared.tasks[0].finish, date("2025-01-08"));
    assert_eq!(cleared.tasks[0].start_text, None);
    assert_eq!(cleared.tasks[0].duration_text, None);
}
