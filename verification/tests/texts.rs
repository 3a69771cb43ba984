use zetta::json::{display, get, parse, print, Json};
use zetta::line_file::{lay_out, with_final_newline};
use zetta::order::{not_behind, sort_by_key, sort_unique};
use zetta::path::windows::{find_prefix, spelled_alike, PrefixKind};
use zetta::path::{file_name, join, path_segments, split_extension};
use zetta::text::{
    contains_text, decimal, ends_with, eq_ignore_ascii_case, find, join_texts, lines,
    parse_unsigned, signed_decimal, split, split_once, strip_prefix, to_ascii_lowercase, trim,
};
use zetta::id_map::IdMap;

fn owned(list: &[&str]) -> Vec<String> {
    list.iter().map(|text| text.to_string()).collect()
}

#[test]
fn text_operations_give_their_exact_results() {
    assert_eq!(trim(" \t a b\u{3000}\n"), "a b");
    assert_eq!(to_ascii_lowercase("ÄBC"), "Äbc");
    assert!(eq_ignore_ascii_case("MSYS2", "msys2"));
    assert!(!eq_ignore_ascii_case("é", "É"));
    assert_eq!(strip_prefix("~/x", "~/"), Some("x".to_owned()));
    assert_eq!(strip_prefix("x", "~/"), None);
    assert!(ends_with("a.json", ".json"));
    assert!(contains_text("abcabd", "abd"));
    assert_eq!(find("abcabd", "abd"), Some(3));
    assert_eq!(find("abc", "z"), None);
}

#[test]
fn texts_are_parted_and_put_together() {
    assert_eq!(split("a::b", ':'), owned(&["a", "", "b"]));
    assert_eq!(split("", ':'), owned(&[""]));
    assert_eq!(split_once("a=b=c", '='), Some(("a".to_owned(), "b=c".to_owned())));
    assert_eq!(split_once("abc", '='), None);
    assert_eq!(join_texts(&owned(&["a", "b", "c"]), ", "), "a, b, c");
    assert_eq!(lines("a\r\nb\n\nc"), owned(&["a", "b", "", "c"]));
    assert_eq!(lines("a\n"), owned(&["a"]));
}

#[test]
fn numbers_are_read_and_written_in_decimal() {
    assert_eq!(decimal(0), "0");
    assert_eq!(decimal(u64::MAX), "18446744073709551615");
    assert_eq!(signed_decimal(-12), "-12");
    assert_eq!(parse_unsigned("0042", 100), Some(42));
    assert_eq!(parse_unsigned("101", 100), None);
    assert_eq!(parse_unsigned("", 100), None);
    assert_eq!(parse_unsigned("4x", 100), None);
}

#[test]
fn json_reads_and_prints() {
    let value = parse(r#"{"b": [1, null, "x"], "a": true}"#).unwrap();
    let entries = match &value {
        Json::Object(entries) => entries,
        _ => panic!("not an object"),
    };
    assert_eq!(get(entries, "a"), Some(&Json::Bool(true)));
    assert_eq!(display(&value), r#"{"a":true,"b":[1,null,"x"]}"#);
    assert_eq!(
        print(Json::Object(vec![("k".to_owned(), Json::Text("v\n".to_owned()))])).unwrap(),
        "{\n  \"k\": \"v\\n\"\n}"
    );
    assert_eq!(parse("{ not json"), None);
}

#[test]
fn paths_are_joined_and_taken_apart() {
    assert_eq!(join("/a", "b", false), "/a/b");
    assert_eq!(join("/a/", "b", false), "/a/b");
    assert_eq!(join("/a", "/b", false), "/b");
    assert_eq!(path_segments("/a//b/"), owned(&["a", "b"]));
    assert_eq!(file_name("/a/b.txt", false), Some("b.txt".to_owned()));
    assert_eq!(
        split_extension("catalog.tar.gz"),
        ("catalog.tar".to_owned(), Some("gz".to_owned()))
    );
    assert_eq!(split_extension(".hidden"), (".hidden".to_owned(), None));
}

#[test]
fn texts_are_sorted_by_their_characters() {
    assert!(not_behind("a", "b"));
    assert!(not_behind("a", "a"));
    assert!(!not_behind("b", "a"));
    assert_eq!(
        sort_unique(&owned(&["b", "a", "b", "Z", "ab"])),
        owned(&["Z", "a", "ab", "b"])
    );
    let items = vec![
        ("k".to_owned(), "first".to_owned()),
        ("a".to_owned(), "x".to_owned()),
        ("k".to_owned(), "second".to_owned()),
    ];
    let sorted = sort_by_key(&items);
    assert_eq!(sorted[0].1, "x");
    assert_eq!(sorted[1].1, "first");
    assert_eq!(sorted[2].1, "second");
}

#[test]
fn a_map_by_number_keeps_the_last_value() {
    let mut map: IdMap<String> = IdMap::new();
    map.insert(3, "a".to_owned());
    map.insert(4, "b".to_owned());
    map.insert(3, "c".to_owned());
    assert_eq!(map.get(3), Some(&"c".to_owned()));
    assert_eq!(map.remove(3), Some("c".to_owned()));
    assert_eq!(map.get(3), None);
    assert_eq!(map.get(4), Some(&"b".to_owned()));
}

#[test]
fn a_file_of_lines_keeps_its_line_breaks() {
    assert_eq!(lay_out(&owned(&["x", "y"]), "a\r\nb\r\n"), "x\r\ny\r\n");
    assert_eq!(lay_out(&owned(&["x", "y"]), "a\nb"), "x\ny");
    assert_eq!(with_final_newline("x".to_owned()), "x\n");
    assert_eq!(with_final_newline("x\n".to_owned()), "x\n");
}

#[test]
fn paths_of_windows_have_drives_and_shares() {
    assert_eq!(join(r"C:\work", "x", true), r"C:\work\x");
    assert_eq!(join("C:/work/", "x", true), "C:/work/x");
    assert_eq!(join("C:", "x", true), "C:x");
    assert_eq!(join(r"C:\work", r"D:\x", true), r"D:\x");
    assert_eq!(join(r"C:\work", r"\x", true), r"C:\x");
    assert_eq!(join(r"\\server\share\a", r"\x", true), r"\\server\share\x");
    assert_eq!(join(r"\\?\C:\work", "a/../b", true), r"\\?\C:\work\b");
    assert_eq!(join(r"\\?\C:\work", "/b", true), r"\\?\C:\b");
    assert_eq!(join(r"\\?\UNC\s\h\w", "x", true), r"\\?\UNC\s\h\w\x");
    assert_eq!(file_name(r"C:\work\x", true), Some("x".to_owned()));
    assert_eq!(file_name(r"C:\work/x\", true), Some("x".to_owned()));
    assert_eq!(file_name(r"C:\", true), None);
    assert_eq!(file_name(r"\\server\share", true), None);
    assert_eq!(file_name(r"\\.\pipe\name", true), Some("name".to_owned()));
    assert_eq!(find_prefix(r"\\?\Volume\x"), (PrefixKind::Verbatim, 10));
    assert_eq!(find_prefix(r"\\server"), (PrefixKind::Absent, 0));
    assert_eq!(find_prefix(r"\\?\C:"), (PrefixKind::VerbatimDrive, 6));
    assert!(spelled_alike(r"c:\a/b\", r"C:\a\b"));
    assert!(!spelled_alike(r"C:\a\B", r"C:\a\b"));
    assert!(!spelled_alike(r"\\?\C:\a", r"C:\a"));
}
