use service_manager::text::{
    contains_text, drop_partial_first_line, i32_text, replace_text, trim_text, u16_text,
};

#[test]
fn decimal_formatting() {
    assert_eq!(u16_text(0), "0");
    assert_eq!(u16_text(8080), "8080");
    assert_eq!(u16_text(65535), "65535");
    assert_eq!(i32_text(-12), "-12");
    assert_eq!(i32_text(137), "137");
    assert_eq!(i32_text(i32::MIN), "-2147483648");
}

#[test]
fn replacing_every_occurrence() {
    assert_eq!(replace_text("a${X}b${X}", "${X}", "yy"), "ayybyy");
    assert_eq!(replace_text("aaa", "aa", "b"), "ba");
    assert_eq!(replace_text("none", "${X}", "y"), "none");
}

#[test]
fn finding_patterns() {
    assert!(contains_text("path/${HF_TOKEN}", "${HF_TOKEN}"));
    assert!(!contains_text("path", "${"));
    assert!(contains_text("abc", ""));
}

#[test]
fn trimming_white_space() {
    assert_eq!(trim_text("  -14 \n"), "-14");
    assert_eq!(trim_text("\u{3000}x\u{a0}"), "x");
    assert_eq!(trim_text(" \t "), "");
}

#[test]
fn partial_first_line_is_dropped() {
    assert_eq!(drop_partial_first_line("tail of line\nnext\nlast"), "next\nlast");
    assert_eq!(drop_partial_first_line("no break"), "no break");
    assert_eq!(drop_partial_first_line("\n"), "");
    assert_eq!(drop_partial_first_line("é€\n😀"), "😀");
}
