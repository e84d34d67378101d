use rgc::sorted::{place, sort, Place};
use rgc::text::{
    chars_of, contains_text, join, lines, parse_u32, path_join, push_decimal, quote_list,
    split_once, string_of, to_hex16, trim, trim_end,
};

#[test]
fn trimming_goes_by_unicode() {
    let v = chars_of("\u{a0} a b\u{3000}\n");
    assert_eq!(string_of(trim(&v)), "a b");
    assert_eq!(string_of(trim_end(&v)), "\u{a0} a b");
}

#[test]
fn lines_end_with_or_without_return() {
    let v = chars_of("a\r\nb\n\nc\r");
    let got: Vec<String> = lines(&v).iter().map(|l| string_of(l)).collect();
    assert_eq!(got, "a\r\nb\n\nc\r".lines().collect::<Vec<_>>());
    assert!(lines(&chars_of("")).is_empty());
}

#[test]
fn splitting_takes_the_first() {
    let v = chars_of("a b c");
    let (x, y) = split_once(&v, ' ').unwrap();
    assert_eq!((string_of(x), string_of(y)), ("a".to_string(), "b c".to_string()));
    assert!(split_once(&v, '-').is_none());
}

#[test]
fn searching() {
    let v = chars_of("aab");
    assert!(contains_text(&v, "ab"));
    assert!(contains_text(&v, ""));
    assert!(!contains_text(&v, "ba"));
}

#[test]
fn numbers() {
    let mut s = String::from("n=");
    push_decimal(&mut s, 0);
    push_decimal(&mut s, u64::MAX);
    assert_eq!(s, "n=018446744073709551615");
    assert_eq!(to_hex16(0xab), "00000000000000ab");
    assert_eq!(to_hex16(u64::MAX), "ffffffffffffffff");
    assert_eq!(parse_u32(&chars_of("0012")), Some(12));
    assert_eq!(parse_u32(&chars_of("1 2")), None);
}

#[test]
fn lists() {
    assert_eq!(join(&vec![], ", "), "");
    assert_eq!(join(&vec!["a".into(), "b".into()], ", "), "a, b");
    assert_eq!(quote_list(&vec!["a\n".into(), "b".into()]), format!("{:?}", vec!["a\n", "b"]));
}

#[test]
fn paths() {
    assert_eq!(path_join("", "a"), "a");
    assert_eq!(path_join("/", "a"), "/a");
    assert_eq!(path_join("b", "a"), "b/a");
}

#[test]
fn order_is_that_of_the_standard_library() {
    let words = ["", "a", "aa", "ab", "b", "Z", "é", "\u{ffff}", "\u{10000}", "z"];
    for a in words {
        for b in words {
            let want = if a < b {
                Place::Before
            } else if a == b {
                Place::Same
            } else {
                Place::After
            };
            assert_eq!(place(a, b), want, "{:?} {:?}", a, b);
        }
    }
}

#[test]
fn sorting_keeps_the_last_of_each_key() {
    let all: Vec<(String, String)> = [("b", "1"), ("a", "2"), ("b", "3"), ("c", "4"), ("a", "5")]
        .iter()
        .map(|(k, v)| (k.to_string(), v.to_string()))
        .collect();
    let want: std::collections::BTreeMap<String, String> = all.iter().cloned().collect();
    assert_eq!(sort(&all), want.into_iter().collect::<Vec<_>>());
}
