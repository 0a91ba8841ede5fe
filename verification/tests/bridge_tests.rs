use base64::Engine;
use rustyproject::bridge::{
    decode, edit_request, reply_step, resume_with_progress, snapshot_request, ReplyAction,
    ReplyState, TaskSnapshot,
};
use rustyproject::calendar::Date;
use rustyproject::links::DependencyRelation;
use rustyproject::schedule::EditCommand;

fn date(y: i32, m: u32, d: u32) -> Date {
    Date::from_ymd(y, m, d).expect("date")
}

fn b64(text: &str) -> String {
    base64::engine::general_purpose::URL_SAFE_NO_PAD.encode(text.as_bytes())
}

fn done_error(action: ReplyAction) -> String {
    match action {
        ReplyAction::Done(Err(message)) => message,
        _ => panic!("expected an error"),
    }
}

fn read_ok(state: &mut ReplyState, line: &str) {
    assert!(matches!(reply_step(state, line), ReplyAction::ReadLine), "{line}");
}

#[test]
fn request_lines() {
    assert_eq!(snapshot_request(), "SNAPSHOT");
    assert_eq!(
        edit_request(
            EditCommand::Move { id: 4, start: date(2025, 2, 3), finish: date(2025, 2, 5) },
            ""
        ),
        "MOVE_ABS\t4\t2025-02-03\t2025-02-05"
    );
    assert_eq!(
        edit_request(EditCommand::ResizeStart { id: 4, start: date(2025, 2, 3) }, ""),
        "RESIZE_START_ABS\t4\t2025-02-03"
    );
    assert_eq!(
        edit_request(EditCommand::ResizeEnd { id: 9, finish: date(2025, 12, 31) }, ""),
        "RESIZE_END_ABS\t9\t2025-12-31"
    );
    assert_eq!(
        edit_request(EditCommand::SetProgress { id: 2, progress_bits: 0 }, "0.2500"),
        "SET_PROGRESS\t2\t0.2500"
    );
}

#[test]
fn a_full_reply_becomes_a_project() {
    let mut state = ReplyState::new();
    read_ok(&mut state, "OK\n");
    read_ok(&mut state, "RANGE\t2025-01-06\t2025-01-10\r\n");
    read_ok(&mut state, "TASKS\t1\n");
    let line = format!(
        "TASK\t3\t{}\t2025-01-06\t2025-01-08\t0.5\t1\tfalse\ttrue\t1FS+2d; 2\n",
        b64("Pour & cure")
    );
    let text = match reply_step(&mut state, &line) {
        ReplyAction::ParseProgress(text) => text,
        _ => panic!("expected a progress"),
    };
    assert_eq!(text, "0.5");
    let bits = text.parse::<f32>().expect("float").to_bits();
    assert!(matches!(
        resume_with_progress(&mut state, Ok(bits)),
        ReplyAction::ReadLine
    ));
    let project = match reply_step(&mut state, "END\n") {
        ReplyAction::Done(Ok(project)) => project,
        _ => panic!("expected a project"),
    };
    assert_eq!(project.start_date, date(2025, 1, 6));
    assert_eq!(project.end_date, date(2025, 1, 10));
    assert!(project.status_date.is_none());
    let task: &TaskSnapshot = &project.tasks[0];
    assert_eq!(task.number, 3);
    assert_eq!(task.name, "Pour & cure");
    assert_eq!(task.start, date(2025, 1, 6));
    assert_eq!(task.finish, date(2025, 1, 8));
    assert_eq!(f32::from_bits(task.progress_bits), 0.5);
    assert_eq!(task.indent, 1);
    assert!(!task.summary);
    assert!(task.milestone);
    assert_eq!(task.predecessors.len(), 2);
    assert_eq!(task.predecessors[0].relation, DependencyRelation::Fs);
    assert_eq!(task.predecessors[1].predecessor, 2);
    assert_eq!(task.duration_days(), 0);
    assert_eq!(task.duration_label(), "0 days");
    assert_eq!(task.start_label(), "2025/01/06 8:00");
    assert_eq!(task.finish_label(), "2025/01/08 17:00");
}

#[test]
fn reply_errors() {
    let mut state = ReplyState::new();
    assert_eq!(
        done_error(reply_step(&mut state, "END\n")),
        "Bridge returned no OK status"
    );
    let mut state = ReplyState::new();
    read_ok(&mut state, "OK");
    assert_eq!(
        done_error(reply_step(&mut state, "END")),
        "Bridge snapshot missing range"
    );
    let mut state = ReplyState::new();
    assert_eq!(
        done_error(reply_step(&mut state, &format!("ERR\t{}\n", b64("No such task")))),
        "No such task"
    );
    assert_eq!(
        done_error(reply_step(&mut ReplyState::new(), "ERR\tplain words")),
        "plain words"
    );
    assert_eq!(
        done_error(reply_step(&mut ReplyState::new(), "HELLO\tthere\n")),
        "Malformed bridge response: HELLO\tthere"
    );
    assert_eq!(
        done_error(reply_step(&mut ReplyState::new(), "OK\textra")),
        "Malformed bridge response: OK\textra"
    );
    let message = done_error(reply_step(
        &mut ReplyState::new(),
        "RANGE\t2025-13-01\t2025-01-10",
    ));
    assert!(message.starts_with("Invalid start date: "), "{message}");
    let message = done_error(reply_step(
        &mut ReplyState::new(),
        "RANGE\t2025-01-01\tlater",
    ));
    assert!(message.starts_with("Invalid end date: "), "{message}");
}

#[test]
fn task_line_errors_come_in_field_order() {
    let name = b64("T");
    let task_line = |id: &str, name: &str, start: &str, preds: &str| {
        format!("TASK\t{id}\t{name}\t{start}\t2025-01-08\tx\tzz\tmaybe\tno\t{preds}")
    };
    let message = done_error(reply_step(
        &mut ReplyState::new(),
        &task_line("x", "!!", "bad", "bad"),
    ));
    assert!(message.starts_with("Invalid task name encoding: "), "{message}");
    let bad_utf8 = base64::engine::general_purpose::URL_SAFE_NO_PAD.encode([0xff, 0xfe]);
    let message = done_error(reply_step(
        &mut ReplyState::new(),
        &task_line("x", &bad_utf8, "bad", "bad"),
    ));
    assert!(message.starts_with("Invalid task name UTF-8: "), "{message}");
    assert_eq!(
        done_error(reply_step(&mut ReplyState::new(), &task_line("x", &name, "bad", "bad"))),
        "Invalid predecessor link: bad"
    );
    assert_eq!(
        done_error(reply_step(&mut ReplyState::new(), &task_line("x", &name, "bad", "4 weeks"))),
        "Invalid dependency relation in link: 4 weeks"
    );
    assert_eq!(
        done_error(reply_step(&mut ReplyState::new(), &task_line("x", &name, "bad", "4FS .d"))),
        "Invalid lag value '.d': invalid float literal"
    );
    assert_eq!(
        done_error(reply_step(&mut ReplyState::new(), &task_line("x", &name, "bad", "4FS +d"))),
        "Invalid lag value '+d': cannot parse float from empty string"
    );
    assert_eq!(
        done_error(reply_step(&mut ReplyState::new(), &task_line("x", &name, "bad", "4FS 2w"))),
        "Invalid lag unit in link: 2w"
    );
    assert_eq!(
        done_error(reply_step(
            &mut ReplyState::new(),
            &task_line("x", &name, "bad", "99999999999999999999999")
        )),
        "Invalid predecessor id in link '99999999999999999999999': number too large to fit in target type"
    );
    assert_eq!(
        done_error(reply_step(&mut ReplyState::new(), &task_line("x", &name, "bad", ""))),
        "Invalid id: invalid digit found in string"
    );
    let message = done_error(reply_step(
        &mut ReplyState::new(),
        &task_line("7", &name, "bad", ""),
    ));
    assert!(message.starts_with("Invalid task start: "), "{message}");

    let mut state = ReplyState::new();
    let line = "TASK\t7\tVA\t2025-01-06\t2025-01-08\tx\tzz\tmaybe\tno\t";
    assert!(matches!(reply_step(&mut state, line), ReplyAction::ParseProgress(_)));
    assert_eq!(
        done_error(resume_with_progress(&mut state, Err("invalid float literal".to_string()))),
        "Invalid progress: invalid float literal"
    );
    let mut state = ReplyState::new();
    assert!(matches!(reply_step(&mut state, line), ReplyAction::ParseProgress(_)));
    assert_eq!(
        done_error(resume_with_progress(&mut state, Ok(0))),
        "Invalid indent: invalid digit found in string"
    );
    let mut state = ReplyState::new();
    let line = "TASK\t7\tVA\t2025-01-06\t2025-01-08\t0\t2\tmaybe\tno\t";
    assert!(matches!(reply_step(&mut state, line), ReplyAction::ParseProgress(_)));
    assert_eq!(
        done_error(resume_with_progress(&mut state, Ok(0))),
        "Invalid summary flag: provided string was not `true` or `false`"
    );
    let mut state = ReplyState::new();
    let line = "TASK\t7\tVA\t2025-01-06\t2025-01-08\t0\t2\ttrue\tno\t";
    assert!(matches!(reply_step(&mut state, line), ReplyAction::ParseProgress(_)));
    assert_eq!(
        done_error(resume_with_progress(&mut state, Ok(0))),
        "Invalid milestone flag: provided string was not `true` or `false`"
    );
}

#[test]
fn error_messages_are_decoded_when_they_can_be() {
    assert_eq!(decode(&b64("héllo")), "héllo");
    assert_eq!(decode("not base64!"), "not base64!");
    let not_utf8 = base64::engine::general_purpose::URL_SAFE_NO_PAD.encode([0xff]);
    assert_eq!(decode(&not_utf8), not_utf8);
    assert_eq!("maybe".parse::<bool>().unwrap_err().to_string(), "provided string was not `true` or `false`");
}
