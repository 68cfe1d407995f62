use bad_extensions::classifier::BadFileEntry;
use bad_extensions::report::{decimal_text, findings_text, header_text, printed_text};

fn entry(path: &str) -> BadFileEntry {
    BadFileEntry {
        path: path.to_string(),
        modified_date: 1,
        size: 2,
        current_extension: "a".to_string(),
        proper_extensions: "b".to_string(),
    }
}

#[test]
fn numbers_in_decimal() {
    assert_eq!(decimal_text(0), "0");
    assert_eq!(decimal_text(7), "7");
    assert_eq!(decimal_text(10), "10");
    assert_eq!(decimal_text(109), "109");
    assert_eq!(decimal_text(1234567890), "1234567890");
    assert_eq!(decimal_text(usize::MAX), usize::MAX.to_string());
}

#[test]
fn header_shows_the_lists_in_debug_form() {
    let included = vec!["/home/user".to_string(), "/mnt/disk".to_string()];
    let excluded = vec!["/home/user/.cache".to_string()];
    let items = vec!["*/.git/*".to_string(), "a \"quoted\" item".to_string()];
    assert_eq!(
        header_text(&included, &excluded, &items),
        "Results of searching [\"/home/user\", \"/mnt/disk\"] with excluded directories \
         [\"/home/user/.cache\"] and excluded items [\"*/.git/*\", \"a \\\"quoted\\\" item\"]\n"
    );
}

#[test]
fn header_of_empty_lists() {
    let none: Vec<String> = Vec::new();
    assert_eq!(
        header_text(&none, &none, &none),
        "Results of searching [] with excluded directories [] and excluded items []\n"
    );
}

#[test]
fn findings_name_the_count_and_the_paths() {
    let entries = vec![entry("/a/one.png"), entry("/a/two.png"), entry("/b/three.png")];
    assert_eq!(
        findings_text(&entries, 3),
        "Found 3 files with invalid extension.\n/a/one.png\n/a/two.png\n/b/three.png\n"
    );
}

#[test]
fn no_findings_are_said_in_one_sentence() {
    assert_eq!(findings_text(&Vec::new(), 0), "Not found any files with invalid extension.");
}

#[test]
fn printed_text_has_an_empty_line_after_the_count() {
    let entries = vec![entry("x.bin")];
    assert_eq!(printed_text(&entries, 1), "Found 1 files with invalid extension.\n\nx.bin\n");
    assert_eq!(printed_text(&Vec::new(), 0), "Found 0 files with invalid extension.\n\n");
}
