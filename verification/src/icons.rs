//! The toolbar and table icons: which icons exist and which image file
//! under the icon directory each one is drawn from.
use crate::model::{has_notes_spec, missed_deadline_spec, TaskSnapshot};
use vstd::prelude::*;

verus! {

/// An icon of the planner's toolbar, ribbon and task table.
#[derive(Clone, Copy, Debug, PartialEq, Eq, Hash, Structural)]
pub enum IconKey {
    Logo,
    Open,
    Save,
    New,
    Print,
    Preview,
    Undo,
    Redo,
    ZoomIn,
    ZoomOut,
    InsertTask,
    InsertResource,
    InsertProject,
    TaskDetails,
    ProjectDetails,
    ResourceDetails,
    DeleteLink,
    InsertLink,
    Indent,
    Outdent,
    ScrollToTask,
    Help,
    Question,
    Locale,
    Histogram,
    Charts,
    TaskUsage,
    ResourceUsage,
    NoSubWindow,
    Info,
    Note,
    Constraint,
    Wbs,
    Plus,
    Minus,
    SaveAs,
    CloseProject,
    PDF,
    Calendar,
    ProjectsDialog,
    SaveBaseline,
    ClearBaseline,
    Update,
    Paste,
    Copy,
    Cut,
    Delete,
    Find,
}

/// The image file of an icon, relative to the project directory: a file
/// under the ProjectLibre UI image directory.
pub open spec fn icon_file(key: IconKey) -> Seq<char> {
    match key {
        IconKey::Logo => "original files of projectlibre/RustyProject-main/projectlibre_ui/src/com/projectlibre1/pm/graphic/images/projectlibre-logo.png"@,
        IconKey::Open => "original files of projectlibre/RustyProject-main/projectlibre_ui/src/com/projectlibre1/pm/graphic/images/big/document-open.png"@,
        IconKey::Save => "original files of projectlibre/RustyProject-main/projectlibre_ui/src/com/projectlibre1/pm/graphic/images/big/document-save.png"@,
        IconKey::New => "original files of projectlibre/RustyProject-main/projectlibre_ui/src/com/projectlibre1/pm/graphic/images/big/document-new.png"@,
        IconKey::Print => "original files of projectlibre/RustyProject-main/projectlibre_ui/src/com/projectlibre1/pm/graphic/images/big/document-print.png"@,
        IconKey::Preview => "original files of projectlibre/RustyProject-main/projectlibre_ui/src/com/projectlibre1/pm/graphic/images/big/document-print-preview.png"@,
        IconKey::Undo => "original files of projectlibre/RustyProject-main/projectlibre_ui/src/com/projectlibre1/pm/graphic/images/big/edit-undo.png"@,
        IconKey::Redo => "original files of projectlibre/RustyProject-main/projectlibre_ui/src/com/projectlibre1/pm/graphic/images/big/edit-redo.png"@,
        IconKey::ZoomIn => "original files of projectlibre/RustyProject-main/projectlibre_ui/src/com/projectlibre1/pm/graphic/images/big/zoom-in.png"@,
        IconKey::ZoomOut => "original files of projectlibre/RustyProject-main/projectlibre_ui/src/com/projectlibre1/pm/graphic/images/big/zoom-out.png"@,
        IconKey::InsertTask => "original files of projectlibre/RustyProject-main/projectlibre_ui/src/com/projectlibre1/pm/graphic/images/big/insert-task.png"@,
        IconKey::InsertResource => "original files of projectlibre/RustyProject-main/projectlibre_ui/src/com/projectlibre1/pm/graphic/images/big/insert-resource.png"@,
        IconKey::InsertProject => "original files of projectlibre/RustyProject-main/projectlibre_ui/src/com/projectlibre1/pm/graphic/images/big/insert-project.png"@,
        IconKey::TaskDetails => "original files of projectlibre/RustyProject-main/projectlibre_ui/src/com/projectlibre1/pm/graphic/images/big/task-details.png"@,
        IconKey::ProjectDetails => "original files of projectlibre/RustyProject-main/projectlibre_ui/src/com/projectlibre1/pm/graphic/images/big/project-details.png"@,
        IconKey::ResourceDetails => "original files of projectlibre/RustyProject-main/projectlibre_ui/src/com/projectlibre1/pm/graphic/images/big/resource-details.png"@,
        IconKey::DeleteLink => "original files of projectlibre/RustyProject-main/projectlibre_ui/src/com/projectlibre1/pm/graphic/images/ribbon/delete-link.png"@,
        IconKey::InsertLink => "original files of projectlibre/RustyProject-main/projectlibre_ui/src/com/projectlibre1/pm/graphic/images/ribbon/insert-link-2.png"@,
        IconKey::Indent => "original files of projectlibre/RustyProject-main/projectlibre_ui/src/com/projectlibre1/pm/graphic/images/ribbon/format-indent-more-5.png"@,
        IconKey::Outdent => "original files of projectlibre/RustyProject-main/projectlibre_ui/src/com/projectlibre1/pm/graphic/images/ribbon/format-indent-less-5.png"@,
        IconKey::ScrollToTask => "original files of projectlibre/RustyProject-main/projectlibre_ui/src/com/projectlibre1/pm/graphic/images/big/scrollToTask.gif"@,
        IconKey::Help => "original files of projectlibre/RustyProject-main/projectlibre_ui/src/com/projectlibre1/pm/graphic/images/ribbon/help-hint.png"@,
        IconKey::Question => "original files of projectlibre/RustyProject-main/projectlibre_ui/src/com/projectlibre1/pm/graphic/images/question.png"@,
        IconKey::Locale => "original files of projectlibre/RustyProject-main/projectlibre_ui/src/com/projectlibre1/pm/graphic/images/globe24.png"@,
        IconKey::Histogram => "original files of projectlibre/RustyProject-main/projectlibre_ui/src/com/projectlibre1/pm/graphic/images/histogram.png"@,
        IconKey::Charts => "original files of projectlibre/RustyProject-main/projectlibre_ui/src/com/projectlibre1/pm/graphic/images/chart.png"@,
        IconKey::TaskUsage => "original files of projectlibre/RustyProject-main/projectlibre_ui/src/com/projectlibre1/pm/graphic/images/taskUsage.png"@,
        IconKey::ResourceUsage => "original files of projectlibre/RustyProject-main/projectlibre_ui/src/com/projectlibre1/pm/graphic/images/resourceUsage.png"@,
        IconKey::NoSubWindow => "original files of projectlibre/RustyProject-main/projectlibre_ui/src/com/projectlibre1/pm/graphic/images/noSubWindow.png"@,
        IconKey::Info => "original files of projectlibre/RustyProject-main/projectlibre_ui/src/com/projectlibre1/pm/graphic/images/information.gif"@,
        IconKey::Note => "original files of projectlibre/RustyProject-main/projectlibre_ui/src/com/projectlibre1/pm/graphic/images/note.gif"@,
        IconKey::Constraint => "original files of projectlibre/RustyProject-main/projectlibre_ui/src/com/projectlibre1/pm/graphic/images/constraint.gif"@,
        IconKey::Wbs => "original files of projectlibre/RustyProject-main/projectlibre_ui/src/com/projectlibre1/pm/graphic/images/WBS.gif"@,
        IconKey::Plus => "original files of projectlibre/RustyProject-main/projectlibre_ui/src/com/projectlibre1/pm/graphic/images/plus.png"@,
        IconKey::Minus => "original files of projectlibre/RustyProject-main/projectlibre_ui/src/com/projectlibre1/pm/graphic/images/moins.png"@,
        IconKey::SaveAs => "original files of projectlibre/RustyProject-main/projectlibre_ui/src/com/projectlibre1/pm/graphic/images/document-save-as.png"@,
        IconKey::CloseProject => "original files of projectlibre/RustyProject-main/projectlibre_ui/src/com/projectlibre1/pm/graphic/images/close-project.png"@,
        IconKey::PDF => "original files of projectlibre/RustyProject-main/projectlibre_ui/src/com/projectlibre1/pm/graphic/images/pdf.png"@,
        IconKey::Calendar => "original files of projectlibre/RustyProject-main/projectlibre_ui/src/com/projectlibre1/pm/graphic/images/calendar24.png"@,
        IconKey::ProjectsDialog => "original files of projectlibre/RustyProject-main/projectlibre_ui/src/com/projectlibre1/pm/graphic/images/projects24.png"@,
        IconKey::SaveBaseline => "original files of projectlibre/RustyProject-main/projectlibre_ui/src/com/projectlibre1/pm/graphic/images/disk.png"@,
        IconKey::ClearBaseline => "original files of projectlibre/RustyProject-main/projectlibre_ui/src/com/projectlibre1/pm/graphic/images/edit-clear.png"@,
        IconKey::Update => "original files of projectlibre/RustyProject-main/projectlibre_ui/src/com/projectlibre1/pm/graphic/images/reload.png"@,
        IconKey::Paste => "original files of projectlibre/RustyProject-main/projectlibre_ui/src/com/projectlibre1/pm/graphic/images/edit-paste.png"@,
        IconKey::Copy => "original files of projectlibre/RustyProject-main/projectlibre_ui/src/com/projectlibre1/pm/graphic/images/edit-copy.png"@,
        IconKey::Cut => "original files of projectlibre/RustyProject-main/projectlibre_ui/src/com/projectlibre1/pm/graphic/images/edit-cut.png"@,
        IconKey::Delete => "original files of projectlibre/RustyProject-main/projectlibre_ui/src/com/projectlibre1/pm/graphic/images/edit-delete.png"@,
        IconKey::Find => "original files of projectlibre/RustyProject-main/projectlibre_ui/src/com/projectlibre1/pm/graphic/images/edit-find-7.png"@,
    }
}

/// Every icon, in the order in which they are loaded.
pub open spec fn all_icon_keys() -> Seq<IconKey> {
    seq![
        IconKey::Logo,
        IconKey::Open,
        IconKey::Save,
        IconKey::New,
        IconKey::Print,
        IconKey::Preview,
        IconKey::Undo,
        IconKey::Redo,
        IconKey::ZoomIn,
        IconKey::ZoomOut,
        IconKey::InsertTask,
        IconKey::InsertResource,
        IconKey::InsertProject,
        IconKey::TaskDetails,
        IconKey::ProjectDetails,
        IconKey::ResourceDetails,
        IconKey::DeleteLink,
        IconKey::InsertLink,
        IconKey::Indent,
        IconKey::Outdent,
        IconKey::ScrollToTask,
        IconKey::Help,
        IconKey::Question,
        IconKey::Locale,
        IconKey::Histogram,
        IconKey::Charts,
        IconKey::TaskUsage,
        IconKey::ResourceUsage,
        IconKey::NoSubWindow,
        IconKey::Info,
        IconKey::Note,
        IconKey::Constraint,
        IconKey::Wbs,
        IconKey::Plus,
        IconKey::Minus,
        IconKey::SaveAs,
        IconKey::CloseProject,
        IconKey::PDF,
        IconKey::Calendar,
        IconKey::ProjectsDialog,
        IconKey::SaveBaseline,
        IconKey::ClearBaseline,
        IconKey::Update,
        IconKey::Paste,
        IconKey::Copy,
        IconKey::Cut,
        IconKey::Delete,
        IconKey::Find,
    ]
}

/// An icon with the image file it is drawn from.
pub struct IconSpec {
    pub key: IconKey,
    pub rel_path: &'static str,
}

/// The image file of an icon, relative to the project directory.
pub fn icon_file_name(key: IconKey) -> (r: &'static str)
    ensures
        r@ == icon_file(key),
{
    match key {
        IconKey::Logo => "original files of projectlibre/RustyProject-main/projectlibre_ui/src/com/projectlibre1/pm/graphic/images/projectlibre-logo.png",
        IconKey::Open => "original files of projectlibre/RustyProject-main/projectlibre_ui/src/com/projectlibre1/pm/graphic/images/big/document-open.png",
        IconKey::Save => "original files of projectlibre/RustyProject-main/projectlibre_ui/src/com/projectlibre1/pm/graphic/images/big/document-save.png",
        IconKey::New => "original files of projectlibre/RustyProject-main/projectlibre_ui/src/com/projectlibre1/pm/graphic/images/big/document-new.png",
        IconKey::Print => "original files of projectlibre/RustyProject-main/projectlibre_ui/src/com/projectlibre1/pm/graphic/images/big/document-print.png",
        IconKey::Preview => "original files of projectlibre/RustyProject-main/projectlibre_ui/src/com/projectlibre1/pm/graphic/images/big/document-print-preview.png",
        IconKey::Undo => "original files of projectlibre/RustyProject-main/projectlibre_ui/src/com/projectlibre1/pm/graphic/images/big/edit-undo.png",
        IconKey::Redo => "original files of projectlibre/RustyProject-main/projectlibre_ui/src/com/projectlibre1/pm/graphic/images/big/edit-redo.png",
        IconKey::ZoomIn => "original files of projectlibre/RustyProject-main/projectlibre_ui/src/com/projectlibre1/pm/graphic/images/big/zoom-in.png",
        IconKey::ZoomOut => "original files of projectlibre/RustyProject-main/projectlibre_ui/src/com/projectlibre1/pm/graphic/images/big/zoom-out.png",
        IconKey::InsertTask => "original files of projectlibre/RustyProject-main/projectlibre_ui/src/com/projectlibre1/pm/graphic/images/big/insert-task.png",
        IconKey::InsertResource => "original files of projectlibre/RustyProject-main/projectlibre_ui/src/com/projectlibre1/pm/graphic/images/big/insert-resource.png",
        IconKey::InsertProject => "original files of projectlibre/RustyProject-main/projectlibre_ui/src/com/projectlibre1/pm/graphic/images/big/insert-project.png",
        IconKey::TaskDetails => "original files of projectlibre/RustyProject-main/projectlibre_ui/src/com/projectlibre1/pm/graphic/images/big/task-details.png",
        IconKey::ProjectDetails => "original files of projectlibre/RustyProject-main/projectlibre_ui/src/com/projectlibre1/pm/graphic/images/big/project-details.png",
        IconKey::ResourceDetails => "original files of projectlibre/RustyProject-main/projectlibre_ui/src/com/projectlibre1/pm/graphic/images/big/resource-details.png",
        IconKey::DeleteLink => "original files of projectlibre/RustyProject-main/projectlibre_ui/src/com/projectlibre1/pm/graphic/images/ribbon/delete-link.png",
        IconKey::InsertLink => "original files of projectlibre/RustyProject-main/projectlibre_ui/src/com/projectlibre1/pm/graphic/images/ribbon/insert-link-2.png",
        IconKey::Indent => "original files of projectlibre/RustyProject-main/projectlibre_ui/src/com/projectlibre1/pm/graphic/images/ribbon/format-indent-more-5.png",
        IconKey::Outdent => "original files of projectlibre/RustyProject-main/projectlibre_ui/src/com/projectlibre1/pm/graphic/images/ribbon/format-indent-less-5.png",
        IconKey::ScrollToTask => "original files of projectlibre/RustyProject-main/projectlibre_ui/src/com/projectlibre1/pm/graphic/images/big/scrollToTask.gif",
        IconKey::Help => "original files of projectlibre/RustyProject-main/projectlibre_ui/src/com/projectlibre1/pm/graphic/images/ribbon/help-hint.png",
        IconKey::Question => "original files of projectlibre/RustyProject-main/projectlibre_ui/src/com/projectlibre1/pm/graphic/images/question.png",
        IconKey::Locale => "original files of projectlibre/RustyProject-main/projectlibre_ui/src/com/projectlibre1/pm/graphic/images/globe24.png",
        IconKey::Histogram => "original files of projectlibre/RustyProject-main/projectlibre_ui/src/com/projectlibre1/pm/graphic/images/histogram.png",
        IconKey::Charts => "original files of projectlibre/RustyProject-main/projectlibre_ui/src/com/projectlibre1/pm/graphic/images/chart.png",
        IconKey::TaskUsage => "original files of projectlibre/RustyProject-main/projectlibre_ui/src/com/projectlibre1/pm/graphic/images/taskUsage.png",
        IconKey::ResourceUsage => "original files of projectlibre/RustyProject-main/projectlibre_ui/src/com/projectlibre1/pm/graphic/images/resourceUsage.png",
        IconKey::NoSubWindow => "original files of projectlibre/RustyProject-main/projectlibre_ui/src/com/projectlibre1/pm/graphic/images/noSubWindow.png",
        IconKey::Info => "original files of projectlibre/RustyProject-main/projectlibre_ui/src/com/projectlibre1/pm/graphic/images/information.gif",
        IconKey::Note => "original files of projectlibre/RustyProject-main/projectlibre_ui/src/com/projectlibre1/pm/graphic/images/note.gif",
        IconKey::Constraint => "original files of projectlibre/RustyProject-main/projectlibre_ui/src/com/projectlibre1/pm/graphic/images/constraint.gif",
        IconKey::Wbs => "original files of projectlibre/RustyProject-main/projectlibre_ui/src/com/projectlibre1/pm/graphic/images/WBS.gif",
        IconKey::Plus => "original files of projectlibre/RustyProject-main/projectlibre_ui/src/com/projectlibre1/pm/graphic/images/plus.png",
        IconKey::Minus => "original files of projectlibre/RustyProject-main/projectlibre_ui/src/com/projectlibre1/pm/graphic/images/moins.png",
        IconKey::SaveAs => "original files of projectlibre/RustyProject-main/projectlibre_ui/src/com/projectlibre1/pm/graphic/images/document-save-as.png",
        IconKey::CloseProject => "original files of projectlibre/RustyProject-main/projectlibre_ui/src/com/projectlibre1/pm/graphic/images/close-project.png",
        IconKey::PDF => "original files of projectlibre/RustyProject-main/projectlibre_ui/src/com/projectlibre1/pm/graphic/images/pdf.png",
        IconKey::Calendar => "original files of projectlibre/RustyProject-main/projectlibre_ui/src/com/projectlibre1/pm/graphic/images/calendar24.png",
        IconKey::ProjectsDialog => "original files of projectlibre/RustyProject-main/projectlibre_ui/src/com/projectlibre1/pm/graphic/images/projects24.png",
        IconKey::SaveBaseline => "original files of projectlibre/RustyProject-main/projectlibre_ui/src/com/projectlibre1/pm/graphic/images/disk.png",
        IconKey::ClearBaseline => "original files of projectlibre/RustyProject-main/projectlibre_ui/src/com/projectlibre1/pm/graphic/images/edit-clear.png",
        IconKey::Update => "original files of projectlibre/RustyProject-main/projectlibre_ui/src/com/projectlibre1/pm/graphic/images/reload.png",
        IconKey::Paste => "original files of projectlibre/RustyProject-main/projectlibre_ui/src/com/projectlibre1/pm/graphic/images/edit-paste.png",
        IconKey::Copy => "original files of projectlibre/RustyProject-main/projectlibre_ui/src/com/projectlibre1/pm/graphic/images/edit-copy.png",
        IconKey::Cut => "original files of projectlibre/RustyProject-main/projectlibre_ui/src/com/projectlibre1/pm/graphic/images/edit-cut.png",
        IconKey::Delete => "original files of projectlibre/RustyProject-main/projectlibre_ui/src/com/projectlibre1/pm/graphic/images/edit-delete.png",
        IconKey::Find => "original files of projectlibre/RustyProject-main/projectlibre_ui/src/com/projectlibre1/pm/graphic/images/edit-find-7.png",
    }
}

fn icon_keys() -> (r: Vec<IconKey>)
    ensures
        r@ == all_icon_keys(),
{
    let keys: Vec<IconKey> = vec![
        IconKey::Logo,
        IconKey::Open,
        IconKey::Save,
        IconKey::New,
        IconKey::Print,
        IconKey::Preview,
        IconKey::Undo,
        IconKey::Redo,
        IconKey::ZoomIn,
        IconKey::ZoomOut,
        IconKey::InsertTask,
        IconKey::InsertResource,
        IconKey::InsertProject,
        IconKey::TaskDetails,
        IconKey::ProjectDetails,
        IconKey::ResourceDetails,
        IconKey::DeleteLink,
        IconKey::InsertLink,
        IconKey::Indent,
        IconKey::Outdent,
        IconKey::ScrollToTask,
        IconKey::Help,
        IconKey::Question,
        IconKey::Locale,
        IconKey::Histogram,
        IconKey::Charts,
        IconKey::TaskUsage,
        IconKey::ResourceUsage,
        IconKey::NoSubWindow,
        IconKey::Info,
        IconKey::Note,
        IconKey::Constraint,
        IconKey::Wbs,
        IconKey::Plus,
        IconKey::Minus,
        IconKey::SaveAs,
        IconKey::CloseProject,
        IconKey::PDF,
        IconKey::Calendar,
        IconKey::ProjectsDialog,
        IconKey::SaveBaseline,
        IconKey::ClearBaseline,
        IconKey::Update,
        IconKey::Paste,
        IconKey::Copy,
        IconKey::Cut,
        IconKey::Delete,
        IconKey::Find,
    ];
    assert(keys@ =~= all_icon_keys());
    keys
}

/// Every icon with its image file, in loading order.
pub fn icon_specs() -> (r: Vec<IconSpec>)
    ensures
        r@.len() == all_icon_keys().len(),
        forall|i: int|
            0 <= i < r@.len() ==> (#[trigger] r@[i]).key == all_icon_keys()[i] && r@[i].rel_path@
                == icon_file(r@[i].key),
{
    let keys = icon_keys();
    let mut specs: Vec<IconSpec> = Vec::new();
    let mut i: usize = 0;
    while i < keys.len()
        invariant
            i <= keys.len(),
            keys@ == all_icon_keys(),
            specs@.len() == i,
            forall|j: int|
                0 <= j < i ==> (#[trigger] specs@[j]).key == all_icon_keys()[j] && specs@[j].rel_path@
                    == icon_file(specs@[j].key),
        decreases keys.len() - i,
    {
        let key = keys[i];
        specs.push(IconSpec { key, rel_path: icon_file_name(key) });
        i = i + 1;
    }
    specs
}

/// The position of an icon in the loading order.
pub open spec fn icon_position(key: IconKey) -> int {
    match key {
        IconKey::Logo => 0,
        IconKey::Open => 1,
        IconKey::Save => 2,
        IconKey::New => 3,
        IconKey::Print => 4,
        IconKey::Preview => 5,
        IconKey::Undo => 6,
        IconKey::Redo => 7,
        IconKey::ZoomIn => 8,
        IconKey::ZoomOut => 9,
        IconKey::InsertTask => 10,
        IconKey::InsertResource => 11,
        IconKey::InsertProject => 12,
        IconKey::TaskDetails => 13,
        IconKey::ProjectDetails => 14,
        IconKey::ResourceDetails => 15,
        IconKey::DeleteLink => 16,
        IconKey::InsertLink => 17,
        IconKey::Indent => 18,
        IconKey::Outdent => 19,
        IconKey::ScrollToTask => 20,
        IconKey::Help => 21,
        IconKey::Question => 22,
        IconKey::Locale => 23,
        IconKey::Histogram => 24,
        IconKey::Charts => 25,
        IconKey::TaskUsage => 26,
        IconKey::ResourceUsage => 27,
        IconKey::NoSubWindow => 28,
        IconKey::Info => 29,
        IconKey::Note => 30,
        IconKey::Constraint => 31,
        IconKey::Wbs => 32,
        IconKey::Plus => 33,
        IconKey::Minus => 34,
        IconKey::SaveAs => 35,
        IconKey::CloseProject => 36,
        IconKey::PDF => 37,
        IconKey::Calendar => 38,
        IconKey::ProjectsDialog => 39,
        IconKey::SaveBaseline => 40,
        IconKey::ClearBaseline => 41,
        IconKey::Update => 42,
        IconKey::Paste => 43,
        IconKey::Copy => 44,
        IconKey::Cut => 45,
        IconKey::Delete => 46,
        IconKey::Find => 47,
    }
}

/// Every icon is listed, at its position, and no position lists another
/// icon: each icon is listed exactly once.
pub proof fn lemma_each_icon_listed_once(key: IconKey)
    ensures
        all_icon_keys().len() == 48,
        0 <= icon_position(key) < all_icon_keys().len(),
        all_icon_keys()[icon_position(key)] == key,
        forall|i: int|
            0 <= i < all_icon_keys().len() ==> icon_position(#[trigger] all_icon_keys()[i]) == i,
{
    match key {
        IconKey::Logo => {},
        IconKey::Open => {},
        IconKey::Save => {},
        IconKey::New => {},
        IconKey::Print => {},
        IconKey::Preview => {},
        IconKey::Undo => {},
        IconKey::Redo => {},
        IconKey::ZoomIn => {},
        IconKey::ZoomOut => {},
        IconKey::InsertTask => {},
        IconKey::InsertResource => {},
        IconKey::InsertProject => {},
        IconKey::TaskDetails => {},
        IconKey::ProjectDetails => {},
        IconKey::ResourceDetails => {},
        IconKey::DeleteLink => {},
        IconKey::InsertLink => {},
        IconKey::Indent => {},
        IconKey::Outdent => {},
        IconKey::ScrollToTask => {},
        IconKey::Help => {},
        IconKey::Question => {},
        IconKey::Locale => {},
        IconKey::Histogram => {},
        IconKey::Charts => {},
        IconKey::TaskUsage => {},
        IconKey::ResourceUsage => {},
        IconKey::NoSubWindow => {},
        IconKey::Info => {},
        IconKey::Note => {},
        IconKey::Constraint => {},
        IconKey::Wbs => {},
        IconKey::Plus => {},
        IconKey::Minus => {},
        IconKey::SaveAs => {},
        IconKey::CloseProject => {},
        IconKey::PDF => {},
        IconKey::Calendar => {},
        IconKey::ProjectsDialog => {},
        IconKey::SaveBaseline => {},
        IconKey::ClearBaseline => {},
        IconKey::Update => {},
        IconKey::Paste => {},
        IconKey::Copy => {},
        IconKey::Cut => {},
        IconKey::Delete => {},
        IconKey::Find => {},
    }
    assert forall|i: int|
        0 <= i < all_icon_keys().len() implies icon_position(#[trigger] all_icon_keys()[i]) == i by {
        if i == 0 {
        } else if i == 1 {
        } else if i == 2 {
        } else if i == 3 {
        } else if i == 4 {
        } else if i == 5 {
        } else if i == 6 {
        } else if i == 7 {
        } else if i == 8 {
        } else if i == 9 {
        } else if i == 10 {
        } else if i == 11 {
        } else if i == 12 {
        } else if i == 13 {
        } else if i == 14 {
        } else if i == 15 {
        } else if i == 16 {
        } else if i == 17 {
        } else if i == 18 {
        } else if i == 19 {
        } else if i == 20 {
        } else if i == 21 {
        } else if i == 22 {
        } else if i == 23 {
        } else if i == 24 {
        } else if i == 25 {
        } else if i == 26 {
        } else if i == 27 {
        } else if i == 28 {
        } else if i == 29 {
        } else if i == 30 {
        } else if i == 31 {
        } else if i == 32 {
        } else if i == 33 {
        } else if i == 34 {
        } else if i == 35 {
        } else if i == 36 {
        } else if i == 37 {
        } else if i == 38 {
        } else if i == 39 {
        } else if i == 40 {
        } else if i == 41 {
        } else if i == 42 {
        } else if i == 43 {
        } else if i == 44 {
        } else if i == 45 {
        } else if i == 46 {
        }
    }
}

/// A mark in the indicator column of the task table.
#[derive(Clone, Copy, Debug, PartialEq, Eq, Structural)]
pub enum TaskIndicator {
    /// The task is complete.
    Completed,
    /// The task has a note.
    Note,
    /// A summary task with resources assigned.
    ParentAssignment,
    /// The task finishes after its deadline.
    MissedDeadline,
}

/// The indicators of a task, in display order; `complete` tells whether the
/// task's completed fraction has reached 1.
pub open spec fn task_indicators_spec(task: TaskSnapshot, complete: bool) -> Seq<TaskIndicator> {
    (if complete { seq![TaskIndicator::Completed] } else { Seq::empty() })
        + (if has_notes_spec(task) { seq![TaskIndicator::Note] } else { Seq::empty() })
        + (if task.summary && task.resource_names@.len() > 0 {
        seq![TaskIndicator::ParentAssignment]
    } else {
        Seq::empty()
    }) + (if missed_deadline_spec(task) { seq![TaskIndicator::MissedDeadline] } else { Seq::empty() })
}

/// The indicators of a task, in display order; `complete` tells whether the
/// task's completed fraction has reached 1.
pub fn task_indicator_icons(task: &TaskSnapshot, complete: bool) -> (r: Vec<TaskIndicator>)
    ensures
        r@ == task_indicators_spec(*task, complete),
{
    let mut out: Vec<TaskIndicator> = Vec::new();
    if complete {
        out.push(TaskIndicator::Completed);
    }
    if task.has_notes() {
        out.push(TaskIndicator::Note);
    }
    if task.summary && task.resource_names.len() > 0 {
        out.push(TaskIndicator::ParentAssignment);
    }
    if task.missed_deadline() {
        out.push(TaskIndicator::MissedDeadline);
    }
    assert(out@ =~= task_indicators_spec(*task, complete));
    out
}

} // verus!
