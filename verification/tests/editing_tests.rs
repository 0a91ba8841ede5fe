use rustyproject::calendar::Date;
use rustyproject::editing::{
    add_task_relative, date_edit, delete_selected_task, drag_edit, first_task_number,
    inspector_texts, parse_id_list, rename_task, selection_after_restore,
    set_indent_from_text, set_predecessors_from_text, toggle_collapsed, DragAction,
};
use rustyproject::model::{ProjectSnapshot, TaskSnapshot};
use rustyproject::schedule::EditCommand;
use std::collections::HashSet;

fn date(y: i32, m: u32, d: u32) -> Date {
    Date::from_ymd(y, m, d).expect("date")
}

fn task(number: usize, name: &str, indent: usize, summary: bool, start: Date, finish: Date) -> TaskSnapshot {
    TaskSnapshot {
        number,
        name: name.to_string(),
        start,
        finish,
        progress_bits: 0,
        indent,
        summary,
        milestone: false,
        predecessors: Vec::new(),
        resource_names: Vec::new(),
        start_text: None,
        finish_text: None,
        duration_text: None,
        notes: None,
        deadline: None,
    }
}

fn project() -> ProjectSnapshot {
    let mut tasks = vec![
        task(1, "Phase", 0, true, date(2025, 2, 3), date(2025, 2, 7)),
        task(2, "Dig", 1, false, date(2025, 2, 3), date(2025, 2, 4)),
        task(3, "Pour", 1, false, date(2025, 2, 5), date(2025, 2, 7)),
        task(4, "Next", 0, false, date(2025, 2, 10), date(2025, 2, 11)),
    ];
    tasks[2].predecessors = vec![2];
    tasks[3].predecessors = vec![3, 2, 1];
    let mut snapshot = ProjectSnapshot::from_tasks(tasks);
    snapshot.normalize();
    snapshot
}

#[test]
fn drag_moves_and_resizes_by_whole_days() {
    let s = date(2025, 2, 3);
    let f = date(2025, 2, 5);
    assert!(matches!(
        drag_edit(DragAction::Move, 9, s, f, 3, 0),
        EditCommand::Move { id: 9, start, finish } if start == date(2025, 2, 6) && finish == date(2025, 2, 8)
    ));
    assert!(matches!(
        drag_edit(DragAction::ResizeStart, 9, s, f, -2, 0),
        EditCommand::ResizeStart { id: 9, start } if start == date(2025, 2, 1)
    ));
    assert!(matches!(
        drag_edit(DragAction::ResizeEnd, 9, s, f, 1, 0),
        EditCommand::ResizeEnd { id: 9, finish } if finish == date(2025, 2, 6)
    ));
    assert!(matches!(
        drag_edit(DragAction::Progress, 9, s, f, 1, 0.75f32.to_bits()),
        EditCommand::SetProgress { id: 9, progress_bits } if progress_bits == 0.75f32.to_bits()
    ));
}

#[test]
fn typed_dates_become_resize_edits() {
    assert!(matches!(
        date_edit(4, " 2025-03-04 ", true),
        Some(EditCommand::ResizeStart { id: 4, start }) if start == date(2025, 3, 4)
    ));
    assert!(matches!(
        date_edit(4, "2025-03-04", false),
        Some(EditCommand::ResizeEnd { id: 4, finish }) if finish == date(2025, 3, 4)
    ));
    assert!(date_edit(4, "2025/03/04", true).is_none());
    assert!(date_edit(4, "2025-02-30", true).is_none());
    assert!(date_edit(4, "", false).is_none());
}

#[test]
fn toggling_collapses_then_expands() {
    let mut collapsed = HashSet::new();
    toggle_collapsed(&mut collapsed, 5);
    assert!(collapsed.contains(&5));
    toggle_collapsed(&mut collapsed, 5);
    assert!(!collapsed.contains(&5));
}

#[test]
fn selection_falls_back_to_the_first_task() {
    let p = project();
    assert_eq!(first_task_number(&p), 1);
    assert_eq!(selection_after_restore(&p, 3), 3);
    assert_eq!(selection_after_restore(&p, 42), 1);
    let empty = ProjectSnapshot::from_tasks(Vec::new());
    assert_eq!(first_task_number(&empty), 0);
    assert_eq!(selection_after_restore(&empty, 3), 0);
}

#[test]
fn inspector_shows_dates_depth_and_links() {
    let p = project();
    let texts = inspector_texts(&p.tasks[3]);
    assert_eq!(texts.start, "2025-02-10");
    assert_eq!(texts.finish, "2025-02-11");
    assert_eq!(texts.name, "Next");
    assert_eq!(texts.indent, "0");
    assert_eq!(texts.predecessors, "3, 2, 1");
    assert_eq!(inspector_texts(&p.tasks[0]).predecessors, "");
}

#[test]
fn adding_a_child_goes_after_the_subtree() {
    let mut p = project();
    let id = add_task_relative(&mut p, 1, true).expect("added");
    assert_eq!(id, 5);
    assert_eq!(
        p.tasks.iter().map(|t| t.number).collect::<Vec<_>>(),
        vec![1, 2, 3, 5, 4]
    );
    let added = &p.tasks[3];
    assert_eq!(added.name, "New child task");
    assert_eq!(added.indent, 1);
    assert_eq!(added.start, date(2025, 2, 8));
    assert_eq!(added.finish, date(2025, 2, 8));
    assert_eq!(p.tasks[0].finish, date(2025, 2, 8));

    let id = add_task_relative(&mut p, 4, false).expect("added");
    assert_eq!(id, 6);
    assert_eq!(p.tasks[5].name, "New task");
    assert_eq!(p.tasks[5].indent, 0);
    assert_eq!(p.tasks[5].start, date(2025, 2, 12));

    let before = p.tasks.len();
    assert_eq!(add_task_relative(&mut p, 77, true), None);
    assert_eq!(p.tasks.len(), before);
}

#[test]
fn deleting_a_subtree_removes_its_links_and_selects_the_previous_row() {
    let mut p = project();
    let selected = delete_selected_task(&mut p, 1).expect("deleted");
    assert_eq!(p.tasks.iter().map(|t| t.number).collect::<Vec<_>>(), vec![4]);
    assert!(p.tasks[0].predecessors.is_empty());
    assert_eq!(selected, 4);

    let mut p = project();
    let selected = delete_selected_task(&mut p, 3).expect("deleted");
    assert_eq!(selected, 2);
    assert_eq!(p.tasks[2].predecessors, vec![2, 1]);
    assert_eq!(p.tasks[0].finish, date(2025, 2, 4));

    let mut p = project();
    assert_eq!(delete_selected_task(&mut p, 99), None);
    assert_eq!(p.tasks.len(), 4);

    let mut single = ProjectSnapshot::from_tasks(vec![task(8, "Only", 0, false, date(2025, 2, 3), date(2025, 2, 3))]);
    assert_eq!(delete_selected_task(&mut single, 8), Some(0));
    assert!(single.tasks.is_empty());
}

#[test]
fn inspector_edits_rename_reindent_and_relink() {
    let mut p = project();
    rename_task(&mut p, 2, "  Excavate  ");
    assert_eq!(p.tasks[1].name, "Excavate");

    assert!(!set_indent_from_text(&mut p, 4, "one"));
    assert_eq!(p.tasks[3].indent, 0);
    assert!(set_indent_from_text(&mut p, 4, " 1 "));
    assert_eq!(p.tasks[3].indent, 1);
    assert_eq!(p.tasks[0].finish, date(2025, 2, 11));

    set_predecessors_from_text(&mut p, 3, "2, x, +1,, 7 ");
    assert_eq!(p.tasks[2].predecessors, vec![2, 1, 7]);
    set_predecessors_from_text(&mut p, 3, "");
    assert!(p.tasks[2].predecessors.is_empty());
}

#[test]
fn id_lists_skip_what_is_not_a_number() {
    assert_eq!(parse_id_list("1,2,3"), vec![1, 2, 3]);
    assert_eq!(parse_id_list(" 4 , -5, 6x, 7"), vec![4, 7]);
    assert!(parse_id_list("").is_empty());
    assert!(parse_id_list(",,").is_empty());
}
