use vault_dynamic_db::string_map::StringMap;
use vault_dynamic_db::text::{
    chars_of, decimal_text, is_blank, is_white_space, parse_index, preview, same_text, starts_with,
    string_of, strip_prefix, trim_end_slashes, PREVIEW_CHARS,
};

#[test]
fn white_space_is_that_of_the_standard_library() {
    for c in '\0'..=char::MAX {
        assert_eq!(is_white_space(c), c.is_whitespace(), "{c:?}");
    }
}

#[test]
fn blank_is_empty_after_trimming() {
    for s in ["", " ", "\t\r\n", "\u{2003}\u{85}", "a", " a ", "\u{200b}"] {
        assert_eq!(is_blank(s), s.trim().is_empty(), "{s:?}");
    }
}

#[test]
fn index_is_read_as_the_standard_library_reads_it() {
    let max = usize::MAX.to_string();
    let over = format!("{max}0");
    for s in [
        "", "0", "7", "42", "007", "+5", "+", "-1", "-0", "++1", " 1", "1 ", "1_0", "0x1", "a", "1a",
        "18446744073709551615", "18446744073709551616", "99999999999999999999", "\u{661}", "+007",
        max.as_str(), over.as_str(),
    ] {
        assert_eq!(parse_index(s), s.parse::<usize>().ok(), "{s:?}");
    }
}

#[test]
fn decimal_is_written_as_the_standard_library_writes_it() {
    for n in [0u64, 1, 9, 10, 11, 99, 100, 429, 86_400_001, u64::MAX - 1, u64::MAX] {
        assert_eq!(decimal_text(n), n.to_string());
        assert_eq!(parse_index(&decimal_text(n)), Some(n as usize));
    }
}

#[test]
fn end_slashes_are_dropped() {
    for s in ["", "/", "///", "a", "a/", "a//", "/a/b//", "https://vault:8200/"] {
        assert_eq!(trim_end_slashes(s), s.trim_end_matches('/'), "{s:?}");
    }
}

#[test]
fn preview_keeps_the_first_characters() {
    let long = "\u{e9}".repeat(PREVIEW_CHARS + 50);
    assert_eq!(PREVIEW_CHARS, 200);
    assert_eq!(preview(&long), "\u{e9}".repeat(200));
    let exact = "x".repeat(200);
    assert_eq!(preview(&exact), exact);
    assert_eq!(preview("boom"), "boom");
    assert_eq!(preview(""), "");
}

#[test]
fn prefixes_are_found_and_stripped() {
    for (s, p) in [("identity.kind", "identity."), ("kind", "identity."), ("", ""), ("a", ""), ("", "a"), ("ab", "ac")] {
        assert_eq!(starts_with(s, p), s.starts_with(p));
        assert_eq!(strip_prefix(s, p).as_deref(), s.strip_prefix(p));
    }
}

#[test]
fn characters_come_apart_and_together() {
    let chars = chars_of("a\u{e9}z");
    assert_eq!(chars, vec!['a', '\u{e9}', 'z']);
    assert_eq!(string_of(&chars, 0, 3), "a\u{e9}z");
    assert_eq!(string_of(&chars, 1, 2), "\u{e9}");
    assert_eq!(string_of(&chars, 2, 2), "");
    assert!(same_text("abc", "abc"));
    assert!(!same_text("abc", "abd"));
}

#[test]
fn map_keeps_the_last_value_of_a_key() {
    let mut map: StringMap<u64> = StringMap::new();
    assert!(map.is_empty());
    map.insert("b".to_owned(), 1);
    map.insert("a".to_owned(), 2);
    map.insert("b".to_owned(), 3);
    assert_eq!(map.len(), 2);
    assert!(!map.is_empty());
    assert_eq!(map.get("a"), Some(&2));
    assert_eq!(map.get("b"), Some(&3));
    assert_eq!(map.get("c"), None);
    assert!(map.contains_key("a"));
    assert!(!map.contains_key(""));
}

#[test]
fn map_is_walked_in_the_order_of_an_ordered_map() {
    let keys = ["b", "", "ab", "a", "\u{1f600}", "\u{ffff}", "Z", "a\u{e9}", "aa", "0"];
    let mut map: StringMap<usize> = StringMap::new();
    let mut model = std::collections::BTreeMap::new();
    for (i, key) in keys.iter().enumerate() {
        map.insert((*key).to_owned(), i);
        model.insert((*key).to_owned(), i);
    }
    assert_eq!(map.len(), model.len());
    for (i, (key, value)) in model.iter().enumerate() {
        assert_eq!(map.key_at(i), key);
        assert_eq!(map.value_at(i), value);
    }
    let copy = map.clone();
    for i in 0..map.len() {
        assert_eq!(copy.key_at(i), map.key_at(i));
        assert_eq!(copy.value_at(i), map.value_at(i));
    }
}
