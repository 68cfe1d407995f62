use bad_extensions::token::{
    current_extension, normalize_extension, token_order, TokenOrder, MAX_EXTENSION_LENGTH,
};

#[test]
fn equal_texts_are_the_same() {
    assert_eq!(token_order("zip", "zip"), TokenOrder::Same);
    assert_eq!(token_order("", ""), TokenOrder::Same);
}

#[test]
fn first_difference_decides_the_order() {
    assert_eq!(token_order("jpe", "jpg"), TokenOrder::Before);
    assert_eq!(token_order("jpg", "jpe"), TokenOrder::After);
    assert_eq!(token_order("b", "abc"), TokenOrder::After);
}

#[test]
fn prefix_comes_before_its_extensions() {
    assert_eq!(token_order("jpe", "jpeg"), TokenOrder::Before);
    assert_eq!(token_order("jpeg", "jpe"), TokenOrder::After);
    assert_eq!(token_order("", "a"), TokenOrder::Before);
}

#[test]
fn order_goes_by_code_point() {
    assert_eq!(token_order("Z", "a"), TokenOrder::Before);
    assert_eq!(token_order("z", "é"), TokenOrder::Before);
    assert_eq!(token_order("dll16", "dll"), TokenOrder::After);
}

#[test]
fn order_agrees_with_the_order_of_str() {
    let texts = ["", "a", "ab", "b", "exe", "exe16", "Exe", "żółw", "zip", "z"];
    for a in texts {
        for b in texts {
            let expected = if a < b {
                TokenOrder::Before
            } else if a == b {
                TokenOrder::Same
            } else {
                TokenOrder::After
            };
            assert_eq!(token_order(a, b), expected, "{:?} against {:?}", a, b);
        }
    }
}

#[test]
fn extension_is_lower_cased() {
    assert_eq!(normalize_extension(Some("JAR")), "jar");
    assert_eq!(normalize_extension(Some("Jpeg")), "jpeg");
    assert_eq!(normalize_extension(Some("txt")), "txt");
}

#[test]
fn absent_extension_is_the_empty_token() {
    assert_eq!(normalize_extension(None), "");
    assert_eq!(normalize_extension(Some("")), "");
}

#[test]
fn extension_of_ten_characters_is_kept() {
    assert_eq!(MAX_EXTENSION_LENGTH, 10);
    assert_eq!(normalize_extension(Some("ABCDEFGHIJ")), "abcdefghij");
}

#[test]
fn extension_of_eleven_characters_counts_as_none() {
    assert_eq!(normalize_extension(Some("abcdefghijk")), normalize_extension(None));
    assert_eq!(normalize_extension(Some("0123456789abcdef0123")), "");
}

#[test]
fn length_is_counted_in_characters() {
    assert_eq!(normalize_extension(Some("żżżżżżżżżż")), "żżżżżżżżżż");
    assert_eq!(normalize_extension(Some("żżżżżżżżżżż")), "");
}

#[test]
fn extension_is_read_from_the_path() {
    assert_eq!(current_extension("archive.jar"), "jar");
    assert_eq!(current_extension("/home/user/Photo.JPG"), "jpg");
    assert_eq!(current_extension("backup.tar.gz"), "gz");
}

#[test]
fn path_without_extension_has_the_empty_token() {
    assert_eq!(current_extension("payload"), "");
    assert_eq!(current_extension("/usr/bin/payload"), "");
    assert_eq!(current_extension(".bashrc"), "");
    assert_eq!(current_extension(""), "");
}

#[test]
fn long_extension_in_a_path_counts_as_none() {
    assert_eq!(current_extension("build.4f2a9c01d3e7"), current_extension("build"));
    assert_eq!(current_extension("library.so.1234567890a"), "");
}
