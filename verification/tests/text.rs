use phonto::text::{
    before, decimal_text, first_line, join2, join3, last_segment, lines, same_text, signed_text,
    starts_with, trim,
};

#[test]
fn trims_blanks_on_both_sides() {
    assert_eq!(trim(" a "), "a");
    assert_eq!(trim("\t\n a b \r\n"), "a b");
    assert_eq!(trim("\u{2003}wide\u{00a0}"), "wide");
    assert_eq!(trim("   "), "");
    assert_eq!(trim(""), "");
}

#[test]
fn compares_texts() {
    assert!(same_text("φόντο", "φόντο"));
    assert!(!same_text("a", "ab"));
    assert!(starts_with("https://x", "https://"));
    assert!(!starts_with("http", "https://"));
    assert!(before("DP-1", "DP-2"));
    assert!(before("DP", "DP-1"));
    assert!(!before("b", "a"));
    assert!(!before("a", "a"));
}

#[test]
fn writes_numbers() {
    assert_eq!(decimal_text(0), "0");
    assert_eq!(decimal_text(1920), "1920");
    assert_eq!(decimal_text(u64::MAX), "18446744073709551615");
    assert_eq!(signed_text(-12902), "-12902");
    assert_eq!(signed_text(i32::MIN), "-2147483648");
    assert_eq!(signed_text(7), "7");
}

#[test]
fn splits_lines() {
    assert_eq!(lines("a\r\nb\n\nc"), vec!["a", "b", "", "c"]);
    assert_eq!(lines("a\n"), vec!["a"]);
    assert_eq!(lines("a\r"), vec!["a\r"]);
    assert_eq!(lines("\n"), vec![""]);
    assert_eq!(lines(""), Vec::<String>::new());
    assert_eq!(first_line("one\ntwo"), Some("one".to_string()));
    assert_eq!(first_line("one\r\ntwo"), Some("one".to_string()));
    assert_eq!(first_line(""), None);
}

#[test]
fn lines_are_those_of_the_standard_library() {
    for s in ["", "\n", "\r\n", "a\rb\nc", "a\r\r\nb", "x\n\r\n", "\r", "ab"] {
        let want: Vec<&str> = s.lines().collect();
        assert_eq!(lines(s), want);
        assert_eq!(first_line(s), s.lines().next().map(str::to_owned));
        assert_eq!(trim(s), s.trim());
    }
}

#[test]
fn joins_and_cuts() {
    assert_eq!(join2("a", "b"), "ab");
    assert_eq!(join3("a", "", "c"), "ac");
    assert_eq!(last_segment("https://x/y/clip.mp4", '/'), "clip.mp4");
    assert_eq!(last_segment("clip.mp4", '/'), "clip.mp4");
    assert_eq!(last_segment("https://x/", '/'), "");
}
