use borax::dict::{str_less, Dict};
use borax::paths::{
    components_of, extension, file_name, find_first, find_last, is_absolute, join, join_parts, parent,
};
use borax::text::{blank, decimal, has_prefix, parse_whole, quote, same, split, trim};

#[test]
fn quoting_escapes_backslashes_and_quotes() {
    assert_eq!(quote("plain"), "\"plain\"");
    assert_eq!(quote(r#"a "b" \c"#), r#""a \"b\" \\c""#);
    assert_eq!(quote(""), "\"\"");
}

#[test]
fn decimals_are_written_without_leading_zeros() {
    assert_eq!(decimal(0), "0");
    assert_eq!(decimal(7), "7");
    assert_eq!(decimal(1000), "1000");
    assert_eq!(decimal(u64::MAX), u64::MAX.to_string());
}

#[test]
fn trimming_matches_str_trim() {
    for sample in ["  a b  ", "\tx\n", "", "   ", "\u{3000}word\u{a0}", "no-space"] {
        assert_eq!(trim(sample), sample.trim());
    }
}

#[test]
fn splitting_matches_str_split() {
    for sample in ["a,b,c", "", ",", "a,,b", "one"] {
        let expected: Vec<String> = sample.split(',').map(String::from).collect();
        assert_eq!(split(sample, ','), expected);
    }
}

#[test]
fn whole_numbers_parse_as_str_parse_does() {
    for sample in ["0", "42", "+7", "007", "", "+", "-1", " 1", "1 ", "12a", "18446744073709551615", "18446744073709551616"] {
        assert_eq!(parse_whole(sample), sample.parse::<u64>().ok(), "{sample:?}");
    }
}

#[test]
fn blank_means_nothing_but_white_space() {
    assert!(blank(""));
    assert!(blank(" \t\n"));
    assert!(!blank(" x "));
}

#[test]
fn prefixes_and_equality() {
    assert!(has_prefix("BORAX_MAILTO", "BORAX_"));
    assert!(!has_prefix("BORA", "BORAX_"));
    assert!(same("abc", "abc"));
    assert!(!same("abc", "abd"));
}

#[test]
fn parents_follow_path_rules() {
    assert_eq!(parent("/a/b/c.pdf").as_deref(), Some("/a/b"));
    assert_eq!(parent("/a").as_deref(), Some("/"));
    assert_eq!(parent("/"), None);
    assert_eq!(parent("c.pdf").as_deref(), Some(""));
    assert_eq!(parent(""), None);
    assert_eq!(parent("/a/b/").as_deref(), Some("/a"));
    assert_eq!(parent("/a//b").as_deref(), Some("/a"));
    assert_eq!(parent("/a/b/.").as_deref(), Some("/a"));
    assert_eq!(parent("./a").as_deref(), Some("."));
    assert_eq!(parent(".").as_deref(), Some(""));
}

#[test]
fn components_are_read_as_std_reads_them() {
    let parts = |p: &str| components_of(p);
    assert_eq!(parts("/a//b/./c/"), vec!["/", "a", "b", "c"]);
    assert_eq!(parts("./a"), vec![".", "a"]);
    assert_eq!(parts("a/../b"), vec!["a", "..", "b"]);
    assert!(parts("").is_empty());
    assert_eq!(join_parts(&vec!["a".to_string(), "b".to_string()]), "a/b");
}

#[test]
fn file_names_and_extensions() {
    assert_eq!(file_name("/a/b/paper.pdf").as_deref(), Some("paper.pdf"));
    assert_eq!(file_name("/a/b/").as_deref(), Some("b"));
    assert_eq!(file_name("/a/b/.").as_deref(), Some("b"));
    assert_eq!(file_name("/"), None);
    assert_eq!(file_name("."), None);
    assert_eq!(file_name("/a/.."), None);
    assert_eq!(extension("/a/paper.PDF").as_deref(), Some("PDF"));
    assert_eq!(extension("/a/.hidden"), None);
    assert_eq!(extension("/a/archive.tar.gz").as_deref(), Some("gz"));
}

#[test]
fn joining_and_absoluteness() {
    assert_eq!(join("/a", "b"), "/a/b");
    assert_eq!(join("/a/", "b"), "/a/b");
    assert_eq!(join("", "b"), "b");
    assert_eq!(join("/a", "/b"), "/b");
    assert!(is_absolute("/x"));
    assert!(!is_absolute("x"));
}

#[test]
fn finding_characters() {
    assert_eq!(find_last("a.b.c", '.'), Some(3));
    assert_eq!(find_first("a.b.c", '.'), Some(1));
    assert_eq!(find_last("abc", '.'), None);
}

#[test]
fn string_order_is_str_order() {
    let samples = ["", "a", "ab", "b", "a-c", "a/b", "Z", "é"];
    for a in samples {
        for b in samples {
            assert_eq!(str_less(a, b), a < b, "{a:?} {b:?}");
        }
    }
}

#[test]
fn a_dict_keeps_keys_sorted_and_unique() {
    let mut d: Dict<u32> = Dict::new();
    d.insert("b".to_string(), 2);
    d.insert("a".to_string(), 1);
    d.insert("b".to_string(), 3);
    assert_eq!(d.len(), 2);
    assert_eq!(d.get("b"), Some(&3));
    assert_eq!(d.get("c"), None);
    assert!(d.contains_key("a"));
    let keys: Vec<&str> = d.entries.iter().map(|(k, _)| k.as_str()).collect();
    assert_eq!(keys, vec!["a", "b"]);
}
