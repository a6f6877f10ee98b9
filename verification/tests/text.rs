use git_mit::text::{join, parse_u64, push_i32_text, str_contains, str_eq, u64_to_text};
use quickcheck::QuickCheck;

#[test]
fn parse_u64_agrees_with_std() {
    fn prop(s: String) -> bool {
        parse_u64(&s) == s.parse::<u64>().ok()
    }
    QuickCheck::new().quickcheck(prop as fn(String) -> bool);
    for s in ["0", "007", "+1", "+", "", "-0", "18446744073709551615", "18446744073709551616", "99999999999999999999"] {
        assert_eq!(parse_u64(s), s.parse::<u64>().ok(), "{:?}", s);
    }
}

#[test]
fn u64_text_agrees_with_display() {
    fn prop(n: u64) -> bool {
        u64_to_text(n) == n.to_string()
    }
    QuickCheck::new().quickcheck(prop as fn(u64) -> bool);
    assert_eq!(u64_to_text(0), "0");
    assert_eq!(u64_to_text(u64::MAX), "18446744073709551615");
}

#[test]
fn u64_text_reads_back() {
    fn prop(n: u64) -> bool {
        parse_u64(&u64_to_text(n)) == Some(n)
    }
    QuickCheck::new().quickcheck(prop as fn(u64) -> bool);
}

#[test]
fn i32_text_agrees_with_display() {
    fn prop(n: i32) -> bool {
        let mut s = String::from("x");
        push_i32_text(&mut s, n);
        s == format!("x{}", n)
    }
    QuickCheck::new().quickcheck(prop as fn(i32) -> bool);
    let mut s = String::new();
    push_i32_text(&mut s, i32::MIN);
    assert_eq!(s, "-2147483648");
}

#[test]
fn contains_agrees_with_std() {
    fn prop(hay: String, needle: String) -> bool {
        str_contains(&hay, &needle) == hay.contains(needle.as_str())
    }
    QuickCheck::new().quickcheck(prop as fn(String, String) -> bool);
    assert!(str_contains("/repo/.git/hooks/mit-commit-msg", "mit-commit-msg"));
    assert!(str_contains("abc", ""));
    assert!(!str_contains("ab", "abc"));
}

#[test]
fn eq_agrees_with_std() {
    assert!(str_eq("local", "local"));
    assert!(!str_eq("local", "global"));
    assert!(!str_eq("loca", "local"));
    assert!(str_eq("", ""));
}

#[test]
fn join_agrees_with_std() {
    fn prop(list: Vec<String>, sep: String) -> bool {
        join(&list, &sep) == list.join(sep.as_str())
    }
    QuickCheck::new().quickcheck(prop as fn(Vec<String>, String) -> bool);
    assert_eq!(join(&vec!["ae".to_string(), "bt".to_string()], ", "), "ae, bt");
    assert_eq!(join(&vec![], ", "), "");
}
