use robopages::cli::parse_key_val;
use robopages::failure::Failure;
use robopages::strmap::StrMap;
use robopages::text::{
    chars_of, contains, decimal_string, join, replace_all, split_on, str_eq, str_lt, string_of,
};

#[test]
fn characters_and_back() {
    for s in ["", "a", "h\u{e9}llo w\u{f6}rld", "\u{1F600}x"] {
        let chars = chars_of(s);
        assert_eq!(chars, s.chars().collect::<Vec<char>>());
        assert_eq!(string_of(&chars), s);
    }
}

#[test]
fn order_of_texts() {
    let samples = ["", "a", "A", "aa", "ab", "b", "a/b", "a.b", "\u{e9}", "z", "\u{1F600}"];
    for a in samples {
        for b in samples {
            assert_eq!(str_lt(a, b), a < b, "{:?} < {:?}", a, b);
            assert_eq!(str_eq(a, b), a == b, "{:?} == {:?}", a, b);
        }
    }
}

#[test]
fn search_and_replace() {
    assert!(contains("hello world", "o w"));
    assert!(contains("hello", ""));
    assert!(contains("", ""));
    assert!(contains("hello", "hello"));
    assert!(contains("hello", "llo"));
    assert!(!contains("hello", "hello!"));
    assert!(!contains("", "a"));
    assert!(!contains("abc", "ac"));
    for (s, pat, to) in [
        ("aaa", "aa", "b"),
        ("abcabc", "bc", ""),
        ("abc", "abc", "abcabc"),
        ("", "x", "y"),
        ("xyz", "q", "r"),
        ("a-b-c", "-", "--"),
    ] {
        assert_eq!(replace_all(s, pat, to), s.replace(pat, to), "{:?}", (s, pat, to));
    }
    assert_eq!(replace_all("aaa", "aa", "b"), "ba");
    assert_eq!(replace_all("abc", "", "x"), "abc");
}

#[test]
fn split_join_and_numbers() {
    for (s, sep) in [("a@b", '@'), ("", ':'), (":", ':'), ("a::b:", ':'), ("abc", ':')] {
        let expected: Vec<String> = s.split(sep).map(|p| p.to_string()).collect();
        assert_eq!(split_on(s, sep), expected, "{:?}", s);
    }
    assert_eq!(split_on("a::b:", ':'), vec!["a", "", "b", ""]);
    let parts: Vec<String> = vec!["a".to_string(), "".to_string(), "c".to_string()];
    assert_eq!(join(&parts, ", "), "a, , c");
    assert_eq!(join(&vec![], ", "), "");
    assert_eq!(join(&vec!["x".to_string()], ", "), "x");
    for n in [0i64, 7, 10, 99, 100, 12345, -1, -10, i64::MAX, i64::MIN] {
        assert_eq!(decimal_string(n), n.to_string());
    }
}

#[test]
fn key_value_pairs() {
    assert_eq!(
        parse_key_val("key=value"),
        Ok(("key".to_string(), "value".to_string()))
    );
    assert_eq!(
        parse_key_val("k=a=b"),
        Ok(("k".to_string(), "a=b".to_string()))
    );
    assert_eq!(parse_key_val("="), Ok(("".to_string(), "".to_string())));
    assert_eq!(parse_key_val("k="), Ok(("k".to_string(), "".to_string())));
    assert_eq!(
        parse_key_val("novalue"),
        Err(Failure::BadKeyValue {
            text: "novalue".to_string()
        })
    );
    assert_eq!(
        parse_key_val("novalue").unwrap_err().to_string(),
        "invalid KEY=value: no `=` found in `novalue`"
    );
}

#[test]
fn maps_walk_in_key_order() {
    let mut map = StrMap::new();
    assert!(map.is_empty());
    assert_eq!(map.insert("m".to_string(), 1), None);
    assert_eq!(map.insert("a".to_string(), 2), None);
    assert_eq!(map.insert("z".to_string(), 3), None);
    assert_eq!(map.insert("ab".to_string(), 4), None);
    assert_eq!(map.insert("m".to_string(), 5), Some(1));
    assert_eq!(map.len(), 4);
    let keys: Vec<&str> = (0..map.len()).map(|i| map.key_at(i)).collect();
    assert_eq!(keys, vec!["a", "ab", "m", "z"]);
    let values: Vec<i32> = (0..map.len()).map(|i| *map.value_at(i)).collect();
    assert_eq!(values, vec![2, 4, 5, 3]);
    assert_eq!(map.get("m"), Some(&5));
    assert_eq!(map.get("n"), None);
    assert!(map.contains_key("ab"));
    assert!(!map.contains_key(""));
    assert_eq!(map.remove("ab"), Some(4));
    assert_eq!(map.remove("ab"), None);
    assert_eq!(map.len(), 3);
    let entries = map.into_entries();
    assert_eq!(
        entries,
        vec![
            ("a".to_string(), 2),
            ("m".to_string(), 5),
            ("z".to_string(), 3)
        ]
    );
}
