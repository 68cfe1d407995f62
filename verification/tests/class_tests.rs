use bad_extensions::class::EquivalenceClass;
use bad_extensions::lookup::expand;

#[test]
fn new_class_is_empty() {
    let class = EquivalenceClass::new();
    assert!(class.is_empty());
    assert_eq!(class.len(), 0);
    assert_eq!(class.joined(), "");
    assert!(!class.contains("zip"));
}

#[test]
fn members_are_listed_in_increasing_order() {
    let mut class = EquivalenceClass::new();
    class.insert("jpg");
    class.insert("jfif");
    class.insert("jpeg");
    class.insert("jpe");
    assert_eq!(class.len(), 4);
    assert_eq!(class.joined(), "jfif,jpe,jpeg,jpg");
}

#[test]
fn member_is_kept_once() {
    let mut class = EquivalenceClass::new();
    class.insert("zip");
    class.insert("zip");
    class.insert("apk");
    class.insert("zip");
    assert_eq!(class.len(), 2);
    assert_eq!(class.joined(), "apk,zip");
}

#[test]
fn single_member_is_joined_without_comma() {
    let mut class = EquivalenceClass::new();
    class.insert("pdf");
    assert!(!class.is_empty());
    assert_eq!(class.joined(), "pdf");
}

#[test]
fn contains_finds_members_only() {
    let mut class = EquivalenceClass::new();
    class.insert("png");
    class.insert("pnz");
    assert!(class.contains("png"));
    assert!(class.contains("pnz"));
    assert!(!class.contains("pn"));
    assert!(!class.contains("PNG"));
    assert!(!class.contains(""));
}

#[test]
fn order_of_insertion_does_not_matter() {
    let mut a = EquivalenceClass::new();
    let mut b = EquivalenceClass::new();
    for token in ["xml", "html", "svg", "ui"] {
        a.insert(token);
    }
    for token in ["ui", "svg", "svg", "html", "xml"] {
        b.insert(token);
    }
    assert_eq!(a.joined(), b.joined());
    assert_eq!(a.joined(), "html,svg,ui,xml");
}

#[test]
fn expand_gathers_the_extensions_of_the_media_type() {
    assert_eq!(expand("jpg").joined(), "jfif,jpe,jpeg,jpg");
    assert_eq!(expand("png").joined(), "png,pnz");
    assert_eq!(expand("zip").joined(), "zip");
}

#[test]
fn expand_takes_all_media_types_of_the_extension() {
    let class = expand("mp2");
    assert!(class.contains("mp2"));
    assert!(class.contains("mp3"));
    assert!(class.contains("mpg"));
}

#[test]
fn expand_of_unknown_extension_is_empty() {
    assert!(expand("no-such-extension").is_empty());
    assert!(expand("").is_empty());
}

#[test]
fn expand_finds_nothing_for_a_media_type_with_suffix() {
    assert!(expand("epub").is_empty());
}

#[test]
fn expand_of_exe_has_many_members() {
    let class = expand("exe");
    assert!(class.contains("exe"));
    assert!(class.contains("bin"));
    assert!(class.len() > 10);
}
