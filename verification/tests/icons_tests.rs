use rustyproject::calendar::Date;
use rustyproject::icons::{icon_file_name, icon_specs, task_indicator_icons, IconKey, TaskIndicator};
use rustyproject::model::TaskSnapshot;
use std::collections::HashSet;

#[test]
fn every_icon_is_listed_once_with_its_file() {
    let specs = icon_specs();
    assert_eq!(specs.len(), 48);
    let keys: HashSet<IconKey> = specs.iter().map(|s| s.key).collect();
    assert_eq!(keys.len(), 48);
    assert_eq!(specs[0].key, IconKey::Logo);
    assert_eq!(specs[0].rel_path, "original files of projectlibre/RustyProject-main/projectlibre_ui/src/com/projectlibre1/pm/graphic/images/projectlibre-logo.png");
    assert_eq!(specs[47].key, IconKey::Find);
    assert_eq!(icon_file_name(IconKey::Open), "original files of projectlibre/RustyProject-main/projectlibre_ui/src/com/projectlibre1/pm/graphic/images/big/document-open.png");
    assert_eq!(icon_file_name(IconKey::Minus), "original files of projectlibre/RustyProject-main/projectlibre_ui/src/com/projectlibre1/pm/graphic/images/moins.png");
    for spec in &specs {
        assert_eq!(spec.rel_path, icon_file_name(spec.key));
    }
}

#[test]
fn indicators_follow_display_order() {
    let day = Date::from_ymd(2025, 3, 3).expect("date");
    let mut task = TaskSnapshot {
        number: 1,
        name: "T".to_string(),
        start: day,
        finish: day,
        progress_bits: 1.0f32.to_bits(),
        indent: 0,
        summary: true,
        milestone: false,
        predecessors: Vec::new(),
        resource_names: vec!["R".to_string()],
        start_text: None,
        finish_text: None,
        duration_text: None,
        notes: Some("n".to_string()),
        deadline: Some(Date::from_ymd(2025, 3, 2).expect("date")),
    };
    assert_eq!(
        task_indicator_icons(&task, true),
        vec![
            TaskIndicator::Completed,
            TaskIndicator::Note,
            TaskIndicator::ParentAssignment,
            TaskIndicator::MissedDeadline
        ]
    );
    task.summary = false;
    task.notes = None;
    task.deadline = None;
    assert!(task_indicator_icons(&task, false).is_empty());
}

#[test]
fn icon_paths_lie_under_the_image_directory() {
    let prefix = "original files of projectlibre/RustyProject-main/projectlibre_ui/src/com/projectlibre1/pm/graphic/images/";
    let specs = icon_specs();
    assert_eq!(specs.len(), 48);
    for spec in &specs {
        assert!(spec.rel_path.starts_with(prefix));
        assert!(spec.rel_path.ends_with(".png") || spec.rel_path.ends_with(".gif"));
    }
}
