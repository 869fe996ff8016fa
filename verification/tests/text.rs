use disk_image::text::{chars_of, find_first, replace_char, replace_first, same_text, starts_with, string_from_chars};

#[test]
fn replace_first_replaces_only_leftmost() {
    assert_eq!(replace_first("a/b/c", "/", "-"), "a-b/c");
}

#[test]
fn replace_first_without_match_keeps_text() {
    assert_eq!(replace_first("sdb", "/dev/", ""), "sdb");
}

#[test]
fn replace_first_with_empty_pattern_inserts_at_start() {
    assert_eq!(replace_first("abc", "", "x"), "xabc");
}

#[test]
fn replace_first_not_anchored() {
    assert_eq!(replace_first("x/dev/sda", "/dev/", ""), "xsda");
}

#[test]
fn replace_char_replaces_all() {
    assert_eq!(replace_char("mapper/luks/x", '/', '_'), "mapper_luks_x");
    assert_eq!(replace_char("", '/', '_'), "");
}

#[test]
fn find_first_positions() {
    let t = chars_of("abcabc");
    assert_eq!(find_first(&t, &chars_of("ca")), Some(2));
    assert_eq!(find_first(&t, &chars_of("abcd")), None);
    assert_eq!(find_first(&t, &chars_of("")), Some(0));
    assert_eq!(find_first(&chars_of(""), &chars_of("a")), None);
}

#[test]
fn prefix_and_equality() {
    assert!(starts_with("/dev/sr0", "/dev/sr"));
    assert!(!starts_with("/dev/sda", "/dev/sr"));
    assert!(!starts_with("/dev", "/dev/sr"));
    assert!(same_text("udf", "udf"));
    assert!(!same_text("udf", "ud"));
    assert!(!same_text("udf", "udg"));
}

#[test]
fn chars_round_trip_non_ascii() {
    let v = chars_of("Überraschung ✓");
    assert_eq!(v.len(), 14);
    assert_eq!(string_from_chars(&v), "Überraschung ✓");
}
