use bad_extensions::deletion::{
    all_files_in_group_selected, deletion_targets, failure_text, plan_deletion, selected_rows,
    step_reads_rows, DeleteAction, DeleteEvent, DeleteSettings, DeleteStep, DialogAnswer,
    FolderCheck, FolderItem, ListKind, Removal, Row, RowKind,
};

fn header() -> Row {
    Row { kind: RowKind::Header, selected: false, path: String::new(), name: String::new() }
}

fn reference(path: &str, name: &str) -> Row {
    Row { kind: RowKind::Header, selected: false, path: path.to_string(), name: name.to_string() }
}

fn record(selected: bool, path: &str, name: &str) -> Row {
    Row { kind: RowKind::Record, selected, path: path.to_string(), name: name.to_string() }
}

fn pair(path: &str, name: &str) -> (String, String) {
    (path.to_string(), name.to_string())
}

const ASK_ALL: DeleteSettings = DeleteSettings { confirm_deletion: true, confirm_group_deletion: true };
const ASK_NOTHING: DeleteSettings =
    DeleteSettings { confirm_deletion: false, confirm_group_deletion: false };

#[test]
fn selected_rows_come_last_first() {
    let rows = vec![
        record(true, "/a", "0"),
        record(false, "/a", "1"),
        record(true, "/a", "2"),
        record(true, "/a", "3"),
        record(false, "/a", "4"),
    ];
    assert_eq!(selected_rows(&rows), vec![3, 2, 0]);
}

#[test]
fn no_row_is_picked_where_none_is_selected() {
    assert_eq!(selected_rows(&Vec::new()), Vec::<usize>::new());
    assert_eq!(selected_rows(&vec![record(false, "/a", "x")]), Vec::<usize>::new());
}

#[test]
fn every_row_is_picked_where_all_are_selected() {
    let rows = vec![record(true, "/a", "x"), record(true, "/a", "y"), record(true, "/b", "z")];
    assert_eq!(selected_rows(&rows), vec![2, 1, 0]);
}

#[test]
fn group_with_all_files_selected_is_found() {
    let rows = vec![
        header(),
        record(true, "/a", "x"),
        record(false, "/b", "x"),
        header(),
        record(true, "/a", "y"),
        record(true, "/b", "y"),
    ];
    assert!(all_files_in_group_selected(&rows));
}

#[test]
fn first_group_with_all_files_selected_is_found() {
    let rows = vec![
        header(),
        record(true, "/a", "x"),
        record(true, "/b", "x"),
        header(),
        record(false, "/a", "y"),
        record(true, "/b", "y"),
    ];
    assert!(all_files_in_group_selected(&rows));
}

#[test]
fn groups_that_keep_a_file_are_passed() {
    let rows = vec![
        header(),
        record(true, "/a", "x"),
        record(false, "/b", "x"),
        header(),
        record(false, "/a", "y"),
        record(true, "/b", "y"),
        record(true, "/c", "y"),
    ];
    assert!(!all_files_in_group_selected(&rows));
}

#[test]
fn list_without_rows_has_no_group() {
    assert!(!all_files_in_group_selected(&Vec::new()));
}

#[test]
fn group_without_files_counts_as_selected() {
    assert!(all_files_in_group_selected(&vec![header()]));
    let rows = vec![header(), record(false, "/a", "x"), header(), header(), record(false, "/a", "y")];
    assert!(all_files_in_group_selected(&rows));
}

#[test]
fn list_with_reference_files_never_loses_a_group() {
    let rows = vec![
        reference("/keep", "first"),
        record(true, "/a", "x"),
        record(true, "/b", "x"),
    ];
    assert!(!all_files_in_group_selected(&rows));
}

#[test]
fn targets_are_listed_by_directory_and_name() {
    let rows = vec![
        header(),
        record(true, "/b", "two"),
        record(true, "/a", "zeta"),
        header(),
        record(true, "/a", "alpha"),
        record(false, "/a", "kept"),
        record(true, "/b", "one"),
    ];
    assert_eq!(
        deletion_targets(&rows),
        vec![pair("/a", "alpha"), pair("/a", "zeta"), pair("/b", "one"), pair("/b", "two")]
    );
}

#[test]
fn file_in_several_rows_is_a_target_once() {
    let rows = vec![
        header(),
        record(true, "/a", "x"),
        record(false, "/b", "x"),
        header(),
        record(true, "/a", "x"),
        record(true, "/a", "x"),
    ];
    assert_eq!(deletion_targets(&rows), vec![pair("/a", "x")]);
}

#[test]
fn directory_goes_before_name_in_the_order_of_targets() {
    let rows = vec![record(true, "/a-b", "x"), record(true, "/a", "y"), record(true, "/a", "")];
    assert_eq!(deletion_targets(&rows), vec![pair("/a", ""), pair("/a", "y"), pair("/a-b", "x")]);
}

#[test]
fn nothing_selected_gives_no_target() {
    assert_eq!(deletion_targets(&Vec::new()), Vec::<(String, String)>::new());
    assert_eq!(
        deletion_targets(&vec![header(), record(false, "/a", "x")]),
        Vec::<(String, String)>::new()
    );
}

#[test]
fn folder_with_nothing_in_it_is_empty() {
    let mut check = FolderCheck::start("/tmp/empty".to_string());
    assert!(!check.only_empty_folders());
    assert_eq!(check.next_folder(), Some("/tmp/empty".to_string()));
    check.listed("/tmp/empty", Some(Vec::new()));
    assert_eq!(check.next_folder(), None);
    assert!(check.only_empty_folders());
}

#[test]
fn folders_in_a_folder_are_listed_in_turn() {
    let mut check = FolderCheck::start("/top".to_string());
    assert_eq!(check.next_folder(), Some("/top".to_string()));
    check.listed(
        "/top",
        Some(vec![FolderItem::Folder("a".to_string()), FolderItem::Folder("b".to_string())]),
    );
    assert!(!check.only_empty_folders());
    assert_eq!(check.next_folder(), Some("/top/b".to_string()));
    check.listed("/top/b", Some(vec![FolderItem::Folder("c".to_string())]));
    assert_eq!(check.next_folder(), Some("/top/b/c".to_string()));
    check.listed("/top/b/c", Some(Vec::new()));
    assert_eq!(check.next_folder(), Some("/top/a".to_string()));
    check.listed("/top/a", Some(Vec::new()));
    assert_eq!(check.next_folder(), None);
    assert!(check.only_empty_folders());
}

#[test]
fn file_in_a_folder_fails_the_check() {
    let mut check = FolderCheck::start("/top".to_string());
    assert_eq!(check.next_folder(), Some("/top".to_string()));
    check.listed(
        "/top",
        Some(vec![FolderItem::Folder("a".to_string()), FolderItem::Other, FolderItem::Folder("b".to_string())]),
    );
    assert_eq!(check.next_folder(), None);
    assert!(!check.only_empty_folders());
}

#[test]
fn unreadable_folder_fails_the_check() {
    let mut check = FolderCheck::start("/top".to_string());
    assert_eq!(check.next_folder(), Some("/top".to_string()));
    check.listed("/top", None);
    assert_eq!(check.next_folder(), None);
    assert!(!check.only_empty_folders());
}

#[test]
fn unreadable_item_fails_the_check() {
    let mut check = FolderCheck::start("/top".to_string());
    assert_eq!(check.next_folder(), Some("/top".to_string()));
    check.listed("/top", Some(vec![FolderItem::Unreadable]));
    assert_eq!(check.next_folder(), None);
    assert!(!check.only_empty_folders());
}

#[test]
fn failures_are_shown_one_to_a_line() {
    assert_eq!(failure_text(&Vec::new()), "");
    assert_eq!(
        failure_text(&vec!["cannot delete /a/x".to_string(), "cannot delete /b/y".to_string()]),
        "cannot delete /a/x\ncannot delete /b/y\n"
    );
}

#[test]
fn request_without_selection_does_nothing() {
    let step = plan_deletion(DeleteEvent::Requested, 0, ListKind::Plain, false, &Vec::new(), ASK_ALL);
    assert_eq!(step, DeleteStep { action: DeleteAction::Nothing, settings: ASK_ALL, hide_preview: false });
}

#[test]
fn request_is_confirmed_first_where_that_is_wanted() {
    let rows = vec![record(true, "/a", "x")];
    let step = plan_deletion(DeleteEvent::Requested, 1, ListKind::Plain, false, &rows, ASK_ALL);
    assert_eq!(step.action, DeleteAction::AskDeletion);
    assert_eq!(step.settings, ASK_ALL);
    assert!(!step.hide_preview);
}

#[test]
fn request_goes_ahead_where_no_question_is_wanted() {
    let rows = vec![record(true, "/a", "x")];
    let plain = plan_deletion(DeleteEvent::Requested, 1, ListKind::Plain, false, &rows, ASK_NOTHING);
    assert_eq!(plain.action, DeleteAction::Remove(Removal::Files));
    let folders =
        plan_deletion(DeleteEvent::Requested, 1, ListKind::EmptyDirectories, false, &rows, ASK_NOTHING);
    assert_eq!(folders.action, DeleteAction::Remove(Removal::EmptyFolders));
    let grouped_rows = vec![header(), record(true, "/a", "x")];
    let grouped =
        plan_deletion(DeleteEvent::Requested, 1, ListKind::Grouped, true, &grouped_rows, ASK_NOTHING);
    assert_eq!(
        grouped,
        DeleteStep {
            action: DeleteAction::Remove(Removal::Grouped),
            settings: ASK_NOTHING,
            hide_preview: true
        }
    );
}

#[test]
fn dismissed_question_ends_the_request() {
    let rows = vec![record(true, "/a", "x")];
    let step = plan_deletion(
        DeleteEvent::DeletionAnswered(DialogAnswer::Dismissed),
        1,
        ListKind::Plain,
        true,
        &rows,
        ASK_ALL,
    );
    assert_eq!(step, DeleteStep { action: DeleteAction::Nothing, settings: ASK_ALL, hide_preview: false });
}

#[test]
fn confirmed_question_leads_to_the_removal() {
    let rows = vec![record(true, "/a", "x")];
    let step = plan_deletion(
        DeleteEvent::DeletionAnswered(DialogAnswer::Confirmed { ask_next_time: true }),
        1,
        ListKind::Plain,
        false,
        &rows,
        ASK_ALL,
    );
    assert_eq!(
        step,
        DeleteStep { action: DeleteAction::Remove(Removal::Files), settings: ASK_ALL, hide_preview: false }
    );
}

#[test]
fn question_is_switched_off_on_request() {
    let rows = vec![record(true, "/a", "x")];
    let step = plan_deletion(
        DeleteEvent::DeletionAnswered(DialogAnswer::Confirmed { ask_next_time: false }),
        1,
        ListKind::EmptyDirectories,
        false,
        &rows,
        ASK_ALL,
    );
    assert_eq!(step.action, DeleteAction::Remove(Removal::EmptyFolders));
    assert_eq!(step.settings, DeleteSettings { confirm_deletion: false, confirm_group_deletion: true });
}

#[test]
fn whole_group_is_asked_about() {
    let rows = vec![header(), record(true, "/a", "x"), record(true, "/b", "x")];
    let step = plan_deletion(
        DeleteEvent::DeletionAnswered(DialogAnswer::Confirmed { ask_next_time: true }),
        2,
        ListKind::Grouped,
        true,
        &rows,
        ASK_ALL,
    );
    assert_eq!(
        step,
        DeleteStep { action: DeleteAction::AskGroupDeletion, settings: ASK_ALL, hide_preview: false }
    );
}

#[test]
fn whole_group_is_not_asked_about_where_that_is_not_wanted() {
    let rows = vec![header(), record(true, "/a", "x"), record(true, "/b", "x")];
    let settings = DeleteSettings { confirm_deletion: true, confirm_group_deletion: false };
    let step = plan_deletion(
        DeleteEvent::DeletionAnswered(DialogAnswer::Confirmed { ask_next_time: true }),
        2,
        ListKind::Grouped,
        false,
        &rows,
        settings,
    );
    assert_eq!(step.action, DeleteAction::Remove(Removal::Grouped));
}

#[test]
fn group_that_keeps_a_file_is_not_asked_about() {
    let rows = vec![header(), record(true, "/a", "x"), record(false, "/b", "x")];
    let step = plan_deletion(DeleteEvent::Requested, 1, ListKind::Grouped, false, &rows, DeleteSettings {
        confirm_deletion: false,
        confirm_group_deletion: true,
    });
    assert_eq!(step.action, DeleteAction::Remove(Removal::Grouped));
}

#[test]
fn confirmed_group_deletion_removes() {
    let rows = vec![header(), record(true, "/a", "x")];
    let step = plan_deletion(
        DeleteEvent::GroupDeletionAnswered(DialogAnswer::Confirmed { ask_next_time: false }),
        1,
        ListKind::Grouped,
        true,
        &rows,
        ASK_ALL,
    );
    assert_eq!(
        step,
        DeleteStep {
            action: DeleteAction::Remove(Removal::Grouped),
            settings: DeleteSettings { confirm_deletion: true, confirm_group_deletion: false },
            hide_preview: true,
        }
    );
}

#[test]
fn dismissed_group_deletion_removes_nothing_but_hides_the_preview() {
    let rows = vec![header(), record(true, "/a", "x")];
    let step = plan_deletion(
        DeleteEvent::GroupDeletionAnswered(DialogAnswer::Dismissed),
        1,
        ListKind::Grouped,
        true,
        &rows,
        ASK_ALL,
    );
    assert_eq!(step, DeleteStep { action: DeleteAction::Nothing, settings: ASK_ALL, hide_preview: true });
}

#[test]
fn answer_does_not_switch_a_question_on() {
    let rows = vec![record(true, "/a", "x")];
    let step = plan_deletion(
        DeleteEvent::DeletionAnswered(DialogAnswer::Confirmed { ask_next_time: true }),
        1,
        ListKind::Plain,
        false,
        &rows,
        ASK_NOTHING,
    );
    assert_eq!(step.settings, ASK_NOTHING);
}

#[test]
fn rows_are_read_only_once_the_deletion_is_settled() {
    let confirmed = DeleteEvent::DeletionAnswered(DialogAnswer::Confirmed { ask_next_time: true });
    let dismissed = DeleteEvent::DeletionAnswered(DialogAnswer::Dismissed);
    let group = DeleteEvent::GroupDeletionAnswered(DialogAnswer::Confirmed { ask_next_time: true });
    let ask_group_only = DeleteSettings { confirm_deletion: false, confirm_group_deletion: true };
    assert!(step_reads_rows(confirmed, 1, ListKind::Grouped, ASK_ALL));
    assert!(step_reads_rows(DeleteEvent::Requested, 1, ListKind::Grouped, ask_group_only));
    assert!(!step_reads_rows(DeleteEvent::Requested, 0, ListKind::Grouped, ask_group_only));
    assert!(!step_reads_rows(DeleteEvent::Requested, 1, ListKind::Grouped, ASK_ALL));
    assert!(!step_reads_rows(dismissed, 1, ListKind::Grouped, ASK_ALL));
    assert!(!step_reads_rows(group, 1, ListKind::Grouped, ASK_ALL));
    assert!(!step_reads_rows(confirmed, 1, ListKind::Plain, ASK_ALL));
    assert!(!step_reads_rows(confirmed, 1, ListKind::EmptyDirectories, ASK_ALL));
    assert!(!step_reads_rows(confirmed, 1, ListKind::Grouped, ASK_NOTHING));
}

#[test]
fn rows_that_are_not_read_may_be_any() {
    let rows = vec![record(false, "/a", "x"), record(true, "/a", "y")];
    let nothing = plan_deletion(DeleteEvent::Requested, 0, ListKind::Grouped, true, &rows, ASK_ALL);
    assert_eq!(nothing, DeleteStep { action: DeleteAction::Nothing, settings: ASK_ALL, hide_preview: false });
    let asked = plan_deletion(DeleteEvent::Requested, 1, ListKind::Grouped, true, &rows, ASK_ALL);
    assert_eq!(asked.action, DeleteAction::AskDeletion);
    let dismissed = plan_deletion(
        DeleteEvent::DeletionAnswered(DialogAnswer::Dismissed),
        1,
        ListKind::Grouped,
        true,
        &rows,
        ASK_ALL,
    );
    assert_eq!(dismissed, DeleteStep { action: DeleteAction::Nothing, settings: ASK_ALL, hide_preview: false });
}
