use bad_extensions::classifier::{BadFileEntry, FileEntry};
use bad_extensions::engine::{BadExtensions, DirTraversalResult, Messages, SaveStep};
use bad_extensions::scan::ItemOutcome;

fn file(path: &str) -> FileEntry {
    FileEntry { path: path.to_string(), size: 9000, modified_date: 77 }
}

fn entry(path: &str) -> BadFileEntry {
    BadFileEntry {
        path: path.to_string(),
        modified_date: 77,
        size: 9000,
        current_extension: "png".to_string(),
        proper_extensions: "jfif,jpe,jpeg,jpg".to_string(),
    }
}

fn found(paths: &[&str], warnings: &[&str]) -> DirTraversalResult {
    DirTraversalResult::SuccessFiles {
        file_entries: paths.iter().map(|p| file(p)).collect(),
        warnings: warnings.iter().map(|w| w.to_string()).collect(),
    }
}

fn strings(items: &[&str]) -> Vec<String> {
    items.iter().map(|s| s.to_string()).collect()
}

#[test]
fn new_search_has_the_usual_settings() {
    let search = BadExtensions::new();
    assert_eq!(search.get_minimal_file_size(), 8192);
    assert_eq!(search.get_maximal_file_size(), u64::MAX);
    assert!(search.get_recursive_search());
    assert!(search.get_include_files_without_extension());
    assert!(!search.get_save_also_as_json());
    assert!(!search.get_stopped_search());
    assert!(search.get_bad_extensions_files().is_empty());
    assert!(search.get_files_to_check().is_empty());
    assert_eq!(search.get_information().number_of_files_with_bad_extension, 0);
    assert_eq!(*search.get_text_messages(), Messages::new());
}

#[test]
fn default_search_is_a_new_search() {
    let search = BadExtensions::default();
    assert_eq!(search.get_minimal_file_size(), 8192);
    assert_eq!(search.get_maximal_file_size(), u64::MAX);
    assert!(search.get_include_files_without_extension());
}

#[test]
fn size_limit_of_zero_is_taken_for_one() {
    let mut search = BadExtensions::new();
    search.set_minimal_file_size(0);
    search.set_maximal_file_size(0);
    assert_eq!(search.get_minimal_file_size(), 1);
    assert_eq!(search.get_maximal_file_size(), 1);
}

#[test]
fn size_limits_are_kept_as_given() {
    let mut search = BadExtensions::new();
    search.set_minimal_file_size(1);
    search.set_maximal_file_size(4096);
    assert_eq!(search.get_minimal_file_size(), 1);
    assert_eq!(search.get_maximal_file_size(), 4096);
    search.set_minimal_file_size(u64::MAX);
    assert_eq!(search.get_minimal_file_size(), u64::MAX);
}

#[test]
fn flags_are_kept_as_given() {
    let mut search = BadExtensions::new();
    search.set_recursive_search(false);
    search.set_save_also_as_json(true);
    search.set_include_files_without_extension(false);
    assert!(!search.get_recursive_search());
    assert!(search.get_save_also_as_json());
    assert!(!search.get_include_files_without_extension());
    assert_eq!(search.get_minimal_file_size(), 8192);
}

#[test]
fn visit_follows_the_settings_of_the_search() {
    let search = BadExtensions::new();
    assert_eq!(search.visit(file("a.png"), true, Some("jpg")), ItemOutcome::Stopped);
    assert_eq!(search.visit(file("a.jpg"), false, Some("jpg")), ItemOutcome::Clean);
    assert_eq!(search.visit(file("a.png"), false, None), ItemOutcome::Clean);
    assert_eq!(search.visit(file("a.png"), false, Some("jpg")), ItemOutcome::Flagged(entry("a.png")));
}

#[test]
fn files_of_the_traversal_wait_to_be_checked() {
    let mut search = BadExtensions::new();
    assert!(search.check_files(found(&["a.png", "b.jpg"], &["cannot read /root"])));
    assert_eq!(*search.get_files_to_check(), vec![file("a.png"), file("b.jpg")]);
    assert_eq!(search.get_text_messages().warnings, strings(&["cannot read /root"]));
    assert!(!search.get_stopped_search());
}

#[test]
fn warnings_of_the_traversal_are_added_to_those_at_hand() {
    let mut search = BadExtensions::new();
    assert!(search.check_files(found(&["a.png"], &["first"])));
    assert!(search.check_files(found(&[], &["second", "third"])));
    assert_eq!(search.get_text_messages().warnings, strings(&["first", "second", "third"]));
}

#[test]
fn traversal_without_files_leaves_none_to_check() {
    let mut search = BadExtensions::new();
    assert!(search.check_files(found(&["a.png"], &[])));
    assert_eq!(*search.get_files_to_check(), vec![file("a.png")]);
    assert!(search.check_files(found(&[], &[])));
    assert!(search.get_files_to_check().is_empty());
}

#[test]
fn successful_traversal_leaves_findings_and_mark_as_they_were() {
    let mut search = BadExtensions::new();
    search.find_bad_extensions_files(found(&["a.png"], &[]), vec![ItemOutcome::Flagged(entry("a.png"))]);
    search.save_failed(SaveStep::Create, "results.txt", "denied");
    assert!(search.check_files(found(&["b.png"], &["skipped"])));
    assert_eq!(*search.get_bad_extensions_files(), vec![entry("a.png")]);
    assert_eq!(search.get_information().number_of_files_with_bad_extension, 1);
    assert_eq!(search.get_text_messages().errors.len(), 1);
    assert!(!search.get_stopped_search());
}

#[test]
fn stopped_traversal_stops_the_run() {
    let mut search = BadExtensions::new();
    assert!(!search.check_files(DirTraversalResult::Stopped));
    assert!(search.get_stopped_search());
    assert!(search.get_bad_extensions_files().is_empty());
}

#[test]
fn completed_visits_become_the_findings() {
    let mut search = BadExtensions::new();
    search.check_files(found(&["a.png", "b.jpg", "c.png"], &[]));
    let completed = search.look_for_bad_extensions_files(vec![
        ItemOutcome::Flagged(entry("a.png")),
        ItemOutcome::Clean,
        ItemOutcome::Flagged(entry("c.png")),
    ]);
    assert!(completed);
    assert!(!search.get_stopped_search());
    assert_eq!(*search.get_bad_extensions_files(), vec![entry("a.png"), entry("c.png")]);
    assert_eq!(search.get_information().number_of_files_with_bad_extension, 2);
    assert!(search.get_files_to_check().is_empty());
}

#[test]
fn stopped_visits_on_a_new_search_leave_no_findings() {
    let mut search = BadExtensions::new();
    search.check_files(found(&["a.png", "b.png"], &[]));
    let completed = search.look_for_bad_extensions_files(vec![
        ItemOutcome::Flagged(entry("a.png")),
        ItemOutcome::Stopped,
    ]);
    assert!(!completed);
    assert!(search.get_stopped_search());
    assert!(search.get_bad_extensions_files().is_empty());
    assert_eq!(search.get_information().number_of_files_with_bad_extension, 0);
    assert!(search.get_files_to_check().is_empty());
}

#[test]
fn stopped_run_leaves_the_findings_of_an_earlier_run() {
    let mut search = BadExtensions::new();
    search.find_bad_extensions_files(found(&["a.png"], &[]), vec![ItemOutcome::Flagged(entry("a.png"))]);
    assert_eq!(search.get_bad_extensions_files().len(), 1);
    search.find_bad_extensions_files(
        found(&["b.png", "c.png"], &[]),
        vec![ItemOutcome::Flagged(entry("b.png")), ItemOutcome::Stopped],
    );
    assert!(search.get_stopped_search());
    assert_eq!(*search.get_bad_extensions_files(), vec![entry("a.png")]);
    assert_eq!(search.get_information().number_of_files_with_bad_extension, 1);
    assert!(search.get_files_to_check().is_empty());
}

#[test]
fn completed_run_clears_the_mark_of_an_earlier_stop() {
    let mut search = BadExtensions::new();
    search.find_bad_extensions_files(DirTraversalResult::Stopped, Vec::new());
    assert!(search.get_stopped_search());
    search.find_bad_extensions_files(found(&["a.png"], &[]), vec![ItemOutcome::Flagged(entry("a.png"))]);
    assert!(!search.get_stopped_search());
    assert_eq!(*search.get_bad_extensions_files(), vec![entry("a.png")]);

    search.find_bad_extensions_files(found(&["a.png"], &[]), vec![ItemOutcome::Stopped]);
    assert!(search.get_stopped_search());
    assert_eq!(*search.get_bad_extensions_files(), vec![entry("a.png")]);
    search.find_bad_extensions_files(found(&[], &[]), Vec::new());
    assert!(!search.get_stopped_search());
    assert!(search.get_bad_extensions_files().is_empty());
}

#[test]
fn completed_pass_clears_the_mark_that_a_traversal_leaves() {
    let mut search = BadExtensions::new();
    assert!(!search.check_files(DirTraversalResult::Stopped));
    assert!(search.get_stopped_search());
    assert!(search.check_files(found(&["a.png"], &[])));
    assert!(search.get_stopped_search());
    assert!(search.look_for_bad_extensions_files(vec![ItemOutcome::Clean]));
    assert!(!search.get_stopped_search());
}

#[test]
fn whole_run_with_findings() {
    let mut search = BadExtensions::new();
    search.find_bad_extensions_files(
        found(&["a.png", "b.jpg"], &["skipped /proc"]),
        vec![ItemOutcome::Flagged(entry("a.png")), ItemOutcome::Clean],
    );
    assert!(!search.get_stopped_search());
    assert_eq!(*search.get_bad_extensions_files(), vec![entry("a.png")]);
    assert_eq!(search.get_information().number_of_files_with_bad_extension, 1);
    assert_eq!(search.get_text_messages().warnings, strings(&["skipped /proc"]));
    assert!(search.get_files_to_check().is_empty());
}

#[test]
fn whole_run_with_a_stopped_traversal_ignores_the_visits() {
    let mut search = BadExtensions::new();
    search.find_bad_extensions_files(
        DirTraversalResult::Stopped,
        vec![ItemOutcome::Flagged(entry("a.png"))],
    );
    assert!(search.get_stopped_search());
    assert!(search.get_bad_extensions_files().is_empty());
    assert_eq!(search.get_information().number_of_files_with_bad_extension, 0);
}

#[test]
fn count_follows_the_findings_in_every_state() {
    let mut search = BadExtensions::new();
    let check = |s: &BadExtensions| {
        assert_eq!(
            s.get_information().number_of_files_with_bad_extension,
            s.get_bad_extensions_files().len()
        )
    };
    check(&search);
    search.set_minimal_file_size(0);
    check(&search);
    search.check_files(found(&["a.png", "b.png"], &[]));
    check(&search);
    search.look_for_bad_extensions_files(vec![
        ItemOutcome::Flagged(entry("a.png")),
        ItemOutcome::Flagged(entry("b.png")),
    ]);
    check(&search);
    search.save_failed(SaveStep::Write, "x", "y");
    check(&search);
    search.look_for_bad_extensions_files(vec![ItemOutcome::Stopped]);
    check(&search);
}

#[test]
fn report_goes_to_results_txt_unless_named() {
    assert_eq!(BadExtensions::results_file_name(""), "results.txt");
    assert_eq!(BadExtensions::results_file_name("out.txt"), "out.txt");
}

#[test]
fn report_of_a_run_with_findings() {
    let mut search = BadExtensions::new();
    search.find_bad_extensions_files(
        found(&["/home/a.png", "/home/b.png"], &[]),
        vec![ItemOutcome::Flagged(entry("/home/a.png")), ItemOutcome::Flagged(entry("/home/b.png"))],
    );
    let text = search.results_text(&strings(&["/home"]), &strings(&["/home/tmp"]), &strings(&["*.git"]));
    assert_eq!(
        text,
        "Results of searching [\"/home\"] with excluded directories [\"/home/tmp\"] and excluded items [\"*.git\"]\n\
         Found 2 files with invalid extension.\n/home/a.png\n/home/b.png\n"
    );
}

#[test]
fn report_of_a_run_without_findings() {
    let search = BadExtensions::new();
    let text = search.results_text(&strings(&["/a", "/b"]), &Vec::new(), &Vec::new());
    assert_eq!(
        text,
        "Results of searching [\"/a\", \"/b\"] with excluded directories [] and excluded items []\n\
         Not found any files with invalid extension."
    );
}

#[test]
fn printed_findings() {
    let mut search = BadExtensions::new();
    assert_eq!(search.print_text(), "Found 0 files with invalid extension.\n\n");
    search.look_for_bad_extensions_files(vec![ItemOutcome::Flagged(entry("/home/a.png"))]);
    assert_eq!(search.print_text(), "Found 1 files with invalid extension.\n\n/home/a.png\n");
}

#[test]
fn failure_to_save_is_noted_among_the_errors() {
    let mut search = BadExtensions::new();
    search.save_failed(SaveStep::Create, "results.txt", "Permission denied (os error 13)");
    search.save_failed(SaveStep::Write, "out.txt", "No space left on device (os error 28)");
    assert_eq!(
        search.get_text_messages().errors,
        strings(&[
            "Failed to create file results.txt, reason Permission denied (os error 13)",
            "Failed to save results to file out.txt, reason No space left on device (os error 28)",
        ])
    );
    assert!(search.get_text_messages().warnings.is_empty());
    assert!(search.get_text_messages().messages.is_empty());
}
