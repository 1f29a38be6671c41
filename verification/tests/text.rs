use wavoic::text::{chars_of, contains_chars, split_chars, string_of, trim_chars};

fn cs(s: &str) -> Vec<char> {
    s.chars().collect()
}

#[test]
fn trim_removes_unicode_white_space() {
    assert_eq!(trim_chars(&cs("  a b \t\n")), cs("a b"));
    assert_eq!(trim_chars(&cs("\u{3000}x\u{a0}")), cs("x"));
    assert_eq!(trim_chars(&cs("   ")), cs(""));
    for s in ["", " x ", "\u{2028}y\u{85}", "a\u{200b}"] {
        assert_eq!(trim_chars(&cs(s)), cs(s.trim()));
    }
}

#[test]
fn split_keeps_empty_pieces() {
    let parts = split_chars(&cs("a++b+"), '+');
    let expect: Vec<Vec<char>> = "a++b+".split('+').map(cs).collect();
    assert_eq!(parts, expect);
    assert_eq!(split_chars(&cs(""), '+'), vec![Vec::<char>::new()]);
}

#[test]
fn contains_finds_runs() {
    assert!(contains_chars(&cs("CABLE Input (VB)"), &cs("CABLE Input")));
    assert!(contains_chars(&cs("xCABLE Input"), &cs("CABLE Input")));
    assert!(!contains_chars(&cs("CABLE Inpu"), &cs("CABLE Input")));
    assert!(contains_chars(&cs("abc"), &cs("")));
}

#[test]
fn chars_round_trip() {
    let s = "héllo ✓";
    assert_eq!(string_of(&chars_of(s)), s);
}
