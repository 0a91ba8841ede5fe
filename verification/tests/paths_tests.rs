use rustyproject::paths::{classpath, is_mpp_extension, is_mpp_path, json_save_path, save_path_choice};

#[test]
fn save_path_replaces_an_mpp_extension() {
    assert_eq!(json_save_path("  plans/site.mpp "), "plans/site.json");
    assert_eq!(json_save_path("plans/site.MPP"), "plans/site.json");
    assert_eq!(json_save_path(" project.json "), "project.json");
    assert_eq!(json_save_path("notes"), "notes");
    assert_eq!(json_save_path("   "), "");
}

#[test]
fn save_path_choice_is_exact() {
    assert_eq!(save_path_choice("", &Some("mpp".to_string()), "x.json"), "");
    assert_eq!(save_path_choice("a.MpP", &Some("MpP".to_string()), "a.json"), "a.json");
    assert_eq!(save_path_choice("a.xml", &Some("xml".to_string()), "a.json"), "a.xml");
    assert_eq!(save_path_choice("a", &None, "a.json"), "a");
}

#[test]
fn mpp_detection_ignores_case() {
    assert!(is_mpp_extension(&Some("mpp".to_string())));
    assert!(is_mpp_extension(&Some("Mpp".to_string())));
    assert!(!is_mpp_extension(&Some("mppx".to_string())));
    assert!(!is_mpp_extension(&None));
    assert!(is_mpp_path("dir/file.MPP"));
    assert!(!is_mpp_path("dir/file.json"));
    assert!(!is_mpp_path("dir/mpp"));
}

#[test]
fn classpath_joins_with_semicolons() {
    assert_eq!(
        classpath("classes", "mpxj.jar", &vec!["a.jar".to_string(), "b.jar".to_string()]),
        "classes;mpxj.jar;a.jar;b.jar"
    );
    assert_eq!(classpath("c", "m", &Vec::new()), "c;m");
}

#[test]
fn mpp_detection_follows_the_final_component() {
    assert!(is_mpp_path("plan.mpp/"));
    assert!(is_mpp_path("plan.mpp/."));
    assert!(is_mpp_path("./..mpp"));
    assert!(!is_mpp_path(".mpp"));
    assert!(!is_mpp_path("plan.mpp/.."));
    assert!(!is_mpp_path("plan.mpp/notes"));
    assert!(!is_mpp_path(""));
    assert!(!is_mpp_path("plan.mpp.json"));
}

#[test]
fn save_path_examples() {
    assert_eq!(json_save_path("   "), "");
    assert_eq!(json_save_path("dir/plan.mpp"), "dir/plan.json");
    assert_eq!(json_save_path(" plan.MPP "), "plan.json");
    assert_eq!(json_save_path("plan.json"), "plan.json");
    assert_eq!(json_save_path(" notes.txt"), "notes.txt");
    assert_eq!(json_save_path("a.b.mpp"), "a.b.json");
    assert_eq!(json_save_path("...mpp"), "...json");
    assert_eq!(json_save_path("a..mpp"), "a..json");
    assert_eq!(json_save_path("/site/x.Mpp"), "/site/x.json");
}

#[test]
fn saving_a_saved_path_changes_nothing() {
    for p in ["  plans/site.mpp ", "a.b.MPP", "notes", "   ", "...mpp", "dir/plan.json"] {
        let once = json_save_path(p);
        assert_eq!(json_save_path(&once), once);
    }
}

#[test]
fn save_path_is_empty_only_for_a_blank_entry() {
    for p in ["C:\\plans\\site.mpp", "plans\\site.MPP", "a.mpp/", "//server/share/x.mpp", "..mpp", "/", "."] {
        assert!(!json_save_path(p).is_empty());
    }
    assert!(json_save_path(" \t\n").is_empty());
}
