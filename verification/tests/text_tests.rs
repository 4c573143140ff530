use dockge_backend::decimal::{parse_up_to, push_decimal, push_signed_decimal};
use dockge_backend::paths::{absolute, join_path};
use dockge_backend::pieces::{blank, is_space, join_from, lines_of, split_at_char, trimmed};
use dockge_backend::text::{
    chars_of, contains_in, find_char, find_in, glue, glue3, holds, matches_at, rfind_char, same,
    slice, starts_with, str_eq, string_of,
};

fn cs(s: &str) -> Vec<char> {
    chars_of(s)
}

fn st(v: &Vec<char>) -> String {
    string_of(v)
}

#[test]
fn chars_round_trip() {
    let v = chars_of("héllo");
    assert_eq!(v, vec!['h', 'é', 'l', 'l', 'o']);
    assert_eq!(string_of(&v), "héllo");
    assert_eq!(string_of(&chars_of("")), "");
}

#[test]
fn glue_joins_in_order() {
    assert_eq!(glue("ab", "cd"), "abcd");
    assert_eq!(glue3("a", "", "c"), "ac");
}

#[test]
fn equality_is_by_characters() {
    assert!(str_eq("abc", "abc"));
    assert!(!str_eq("abc", "abd"));
    assert!(!str_eq("abc", "ab"));
    assert!(str_eq("", ""));
    assert!(same(&cs("xy"), &cs("xy")));
    assert!(!same(&cs("xy"), &cs("yx")));
}

#[test]
fn find_gives_the_first_occurrence() {
    assert_eq!(find_in(&cs("abcabc"), &cs("bc")), Some(1));
    assert_eq!(find_in(&cs("abcabc"), &cs("cb")), None);
    assert_eq!(find_in(&cs("abc"), &cs("")), Some(0));
    assert_eq!(find_in(&cs(""), &cs("")), Some(0));
    assert_eq!(find_in(&cs("ab"), &cs("abc")), None);
    assert_eq!(find_in(&cs("aab"), &cs("ab")), Some(1));
    assert!(contains_in(&cs("still running"), &cs("running")));
    assert!(!contains_in(&cs("runnin"), &cs("running")));
}

#[test]
fn matches_at_checks_one_place() {
    assert!(matches_at(&cs("hello"), &cs("ll"), 2));
    assert!(!matches_at(&cs("hello"), &cs("ll"), 3));
    assert!(!matches_at(&cs("hello"), &cs("lo"), 4));
    assert!(matches_at(&cs("hello"), &cs(""), 5));
    assert!(!matches_at(&cs("hello"), &cs(""), 6));
    assert!(starts_with(&cs("created(1)"), &cs("created")));
    assert!(!starts_with(&cs("create"), &cs("created")));
}

#[test]
fn first_and_last_index_of_a_character() {
    assert_eq!(find_char(&cs("a:b:c"), ':'), Some(1));
    assert_eq!(rfind_char(&cs("a:b:c"), ':'), Some(3));
    assert_eq!(find_char(&cs("abc"), ':'), None);
    assert_eq!(rfind_char(&cs(""), ':'), None);
    assert!(holds(&cs("KEY=value"), '='));
    assert!(!holds(&cs("KEY"), '='));
}

#[test]
fn slice_takes_a_range() {
    assert_eq!(st(&slice(&cs("abcdef"), 2, 4)), "cd");
    assert_eq!(st(&slice(&cs("abcdef"), 0, 0)), "");
    assert_eq!(st(&slice(&cs("abcdef"), 0, 6)), "abcdef");
}

fn split_strings(s: &str, c: char) -> Vec<String> {
    split_at_char(&cs(s), c).iter().map(st).collect()
}

#[test]
fn split_is_the_split_of_std() {
    for s in ["a/b/c", "", "/", "a//b", "/a", "a/", "abc", "//"] {
        let want: Vec<String> = s.split('/').map(|p| p.to_string()).collect();
        assert_eq!(split_strings(s, '/'), want, "{:?}", s);
    }
}

#[test]
fn join_undoes_split() {
    for s in ["a/b/c", "", "/", "a//b", "/a", "a/", "abc"] {
        let parts = split_at_char(&cs(s), '/');
        assert_eq!(st(&join_from(&parts, 0, &cs("/"))), s);
    }
    let parts = split_at_char(&cs("ghcr.io/owner/app"), '/');
    assert_eq!(st(&join_from(&parts, 1, &cs("/"))), "owner/app");
    assert_eq!(st(&join_from(&parts, 3, &cs("/"))), "");
    assert_eq!(st(&join_from(&parts, 0, &cs(", "))), "ghcr.io, owner, app");
}

#[test]
fn white_space_is_the_white_space_of_std() {
    let mut n: u32 = 0;
    while n < 0x11000 {
        if let Some(c) = char::from_u32(n) {
            assert_eq!(is_space(c), c.is_whitespace(), "U+{:04X}", n);
        }
        n += 1;
    }
}

#[test]
fn trim_is_the_trim_of_std() {
    for s in [
        "",
        "   ",
        " a ",
        "\t x y \r\n",
        "\u{a0}x\u{2003}",
        "\u{feff}x",
        "\u{200b}",
        "\u{3000}wide\u{3000}",
        "no-space",
        " \u{85}\u{1680} ",
    ] {
        assert_eq!(st(&trimmed(&cs(s))), s.trim(), "{:?}", s);
        assert_eq!(blank(&cs(s)), s.trim().is_empty(), "{:?}", s);
    }
}

#[test]
fn lines_are_the_lines_of_std() {
    for s in [
        "",
        "\n",
        "a",
        "a\n",
        "a\nb",
        "a\r\nb\r\n",
        "a\n\nb",
        "a\r",
        "\r\n",
        "a\rb\n",
        "\n\n",
        "KEY=value\nOTHER=1\n",
        "a\r\r\nb",
    ] {
        let got: Vec<String> = lines_of(&cs(s)).iter().map(st).collect();
        let want: Vec<String> = s.lines().map(|l| l.to_string()).collect();
        assert_eq!(got, want, "{:?}", s);
    }
}

#[test]
fn decimal_is_the_notation_of_std() {
    for n in [0u64, 7, 9, 10, 99, 100, 5001, 4294967295, u64::MAX] {
        let mut v = cs("n=");
        push_decimal(&mut v, n);
        assert_eq!(st(&v), format!("n={}", n));
    }
    for n in [0i64, -1, 1, -128, 255, i64::MAX, i64::MIN, -2147483648] {
        let mut v = Vec::new();
        push_signed_decimal(&mut v, n);
        assert_eq!(st(&v), n.to_string());
    }
}

#[test]
fn numbers_are_read_up_to_a_limit() {
    assert_eq!(parse_up_to(&cs("0"), 10), Some(0));
    assert_eq!(parse_up_to(&cs("10"), 10), Some(10));
    assert_eq!(parse_up_to(&cs("11"), 10), None);
    assert_eq!(parse_up_to(&cs("0007"), 10), Some(7));
    assert_eq!(parse_up_to(&cs(""), 10), None);
    assert_eq!(parse_up_to(&cs("1a"), 10), None);
    assert_eq!(parse_up_to(&cs("-1"), 10), None);
    assert_eq!(parse_up_to(&cs("+1"), 10), None);
    assert_eq!(parse_up_to(&cs("2147483647"), 2147483647), Some(2147483647));
    assert_eq!(parse_up_to(&cs("2147483648"), 2147483647), None);
    assert_eq!(parse_up_to(&cs("18446744073709551615"), u64::MAX), Some(u64::MAX));
    assert_eq!(parse_up_to(&cs("18446744073709551616"), u64::MAX), None);
    assert_eq!(parse_up_to(&cs("99999999999999999999999999"), u64::MAX), None);
    assert_eq!(parse_up_to(&cs("\u{0661}"), 10), None);
}

#[test]
fn paths_join_as_std_joins_them() {
    for (base, name) in [
        ("/opt/stacks", "web"),
        ("/opt/stacks/", "web"),
        ("", "web"),
        ("a", "/abs"),
        ("./data/", "dockge.db"),
        ("a", ""),
        ("", ""),
        ("/", "x"),
        ("rel/dir", "sub/file"),
    ] {
        let want = std::path::Path::new(base).join(name);
        assert_eq!(join_path(base, name), want.to_string_lossy(), "{:?} {:?}", base, name);
    }
    assert!(absolute("/opt"));
    assert!(!absolute("opt"));
    assert!(!absolute(""));
}
