use gm_master::text::{
    chars_of, contains_chars, lines, parse_i32, parse_u32, remove_all_of, split_chars, string_of,
    trim,
};

fn cs(s: &str) -> Vec<char> {
    chars_of(s)
}

fn st(v: &[char]) -> String {
    string_of(&v.to_vec())
}

#[test]
fn trimming_follows_unicode_whitespace() {
    assert_eq!(st(&trim(&cs("\u{3000}\t a b \u{a0}\n"))), "a b");
    assert_eq!(st(&trim(&cs("   "))), "");
    assert_eq!(st(&trim(&cs("x"))), "x");
}

#[test]
fn unsigned_numbers_parse_as_std_does() {
    assert_eq!(parse_u32(&cs("0")), Some(0));
    assert_eq!(parse_u32(&cs("+15")), Some(15));
    assert_eq!(parse_u32(&cs("4294967295")), Some(u32::MAX));
    assert_eq!(parse_u32(&cs("4294967296")), None);
    assert_eq!(parse_u32(&cs("+")), None);
    assert_eq!(parse_u32(&cs("")), None);
    assert_eq!(parse_u32(&cs("-1")), None);
    assert_eq!(parse_u32(&cs("1 ")), None);
    for s in ["7", "+7", "00012", "99999999999", "12a", "++1"] {
        assert_eq!(parse_u32(&cs(s)), s.parse::<u32>().ok());
    }
}

#[test]
fn signed_numbers_parse_as_std_does() {
    for s in ["-2147483648", "2147483647", "2147483648", "-2147483649", "-0", "+-1", "-+1", "-", "12345"] {
        assert_eq!(parse_i32(&cs(s)), s.parse::<i32>().ok(), "{}", s);
    }
}

#[test]
fn splitting_and_lines_follow_std() {
    let pieces: Vec<String> = split_chars(&cs("a·b··c"), '·').iter().map(|p| st(p)).collect();
    assert_eq!(pieces, "a·b··c".split('·').collect::<Vec<_>>());
    for text in ["", "a", "a\n", "a\r\nb\n\nc", "\n", "x\ry\n"] {
        let got: Vec<String> = lines(&cs(text)).iter().map(|l| st(l)).collect();
        assert_eq!(got, text.lines().collect::<Vec<_>>(), "{:?}", text);
    }
}

#[test]
fn removal_and_search_follow_std() {
    let p = cs("ab");
    for text in ["", "ab", "aab", "abab", "aabb", "xaby"] {
        assert_eq!(st(&remove_all_of(&cs(text), &p)), text.replace("ab", ""));
        assert_eq!(contains_chars(&cs(text), &p), text.contains("ab"));
    }
}
