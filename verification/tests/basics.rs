//! Texts, paths, tables, patterns, hashes and JSON.

use spire_build::hash::sha256_hex;
use spire_build::json::{json_items_of, member_of, members_of, parse_json, string_in, string_of, JsonKind};
use spire_build::project::{
    file_extension, file_stem, find_dir_name, join_path, parent_path, path_from_root, path_name, to_plain_path,
    with_extension, Entry, ProjectTree,
};
use spire_build::regexes::{
    end_at, find_matches, first_match, is_match, replace_matches, span_at, start_at, strip_matches, text_at,
};
use spire_build::table::{find_key, put, put_new};
use spire_build::text::{
    append_texts, behind_last, char_index, char_number, chars_of, contains, copy_text_option,
    ends_with, find, find_after, head_of, insert_sorted, is_less, is_whitespace, join, lines, list_has,
    number_text, replace, rfind, same, sort, span_of, split, starts_with, tail_of, text_of, text_of_all, tokens,
    trim, trim_end, trim_of, trim_start, width_of, without_repeats, words,
};

fn texts(list: &[&str]) -> Vec<String> {
    list.iter().map(|s| s.to_string()).collect()
}

#[test]
fn a_text_is_its_characters() {
    let chars = chars_of("aé𝄞");
    assert_eq!(chars, vec!['a', 'é', '𝄞']);
    assert_eq!(text_of_all(&chars), "aé𝄞");
    assert_eq!(text_of(&chars, 1, 3), "é𝄞");
    assert_eq!(text_of(&chars, 1, 1), "");
    assert!(same("é", "é"));
    assert!(!same("é", "e"));
}

#[test]
fn searching_counts_characters() {
    assert_eq!(find("ééabab", "ab"), Some(2));
    assert_eq!(find_after("ééabab", "ab", 3), Some(4));
    assert_eq!(find_after("ééabab", "ab", 5), None);
    assert_eq!(rfind("ééabab", "ab"), Some(4));
    assert_eq!(rfind("abc", "x"), None);
    assert_eq!(find("abc", ""), Some(0));
    assert!(contains("abc", "bc") && !contains("abc", "cb"));
    assert!(starts_with("abc", "ab") && !starts_with("ab", "abc"));
    assert!(ends_with("abc", "bc") && !ends_with("bc", "abc"));
    assert_eq!(head_of("éab", 1), "é");
    assert_eq!(tail_of("éab", 1), "ab");
    assert_eq!(behind_last("a/b/c", "/"), "c");
    assert_eq!(behind_last("abc", "/"), "abc");
}

#[test]
fn trimming_takes_unicode_blanks() {
    assert_eq!(trim("\u{a0} \t x y\u{3000}\n"), "x y");
    assert_eq!(trim_start("  x "), "x ");
    assert_eq!(trim_end(" x  "), " x");
    assert_eq!(trim_of("\"\"x\"", "\""), "x");
    assert_eq!(trim("   "), "");
    assert!(is_whitespace('\u{2003}') && !is_whitespace('_'));
}

#[test]
fn splitting_follows_the_separator() {
    assert_eq!(split("a,,b,", ','), texts(&["a", "", "b", ""]));
    assert_eq!(split("", ','), texts(&[""]));
    assert_eq!(lines("a\r\nb\n\nc"), texts(&["a", "b", "", "c"]));
    assert_eq!(lines("a\n"), texts(&["a"]));
    assert_eq!(lines(""), texts(&[]));
    assert_eq!(words("  a \t b\nc "), texts(&["a", "b", "c"]));
    assert_eq!(tokens("a, b;c,,", ",; "), texts(&["a", "b", "c"]));
    assert_eq!(join(&texts(&["a", "b", "c"]), ", "), "a, b, c");
    assert_eq!(join(&texts(&[]), ", "), "");
}

#[test]
fn replacing_does_not_look_at_what_it_wrote() {
    assert_eq!(replace("aaa", "aa", "b"), "ba");
    assert_eq!(replace("x__P__y__P__", "__P__", "p"), "xpyp");
    assert_eq!(replace("abab", "ab", "abab"), "abababab");
}

#[test]
fn order_is_by_code_point() {
    assert!(is_less("Z", "a"));
    assert!(is_less("a", "aa"));
    assert!(!is_less("a", "a"));
    assert!(is_less("z", "é"));
    assert_eq!(sort(&texts(&["b", "a", "C", "a"])), texts(&["C", "a", "a", "b"]));
    let mut list = texts(&["a", "c"]);
    insert_sorted(&mut list, "b".to_string());
    assert_eq!(list, texts(&["a", "b", "c"]));
    assert_eq!(without_repeats(&texts(&["b", "a", "b", "c", "a"])), texts(&["b", "a", "c"]));
    assert!(list_has(&list, "b") && !list_has(&list, "d"));
    let mut head = texts(&["x"]);
    append_texts(&mut head, &list);
    assert_eq!(head, texts(&["x", "a", "b", "c"]));
    assert_eq!(copy_text_option(&Some("q".to_string())), Some("q".to_string()));
}

#[test]
fn places_come_from_bytes() {
    let chars = chars_of("aé\n𝄞x");
    assert_eq!(width_of('a'), 1);
    assert_eq!(width_of('é'), 2);
    assert_eq!(width_of('€'), 3);
    assert_eq!(width_of('𝄞'), 4);
    assert_eq!(char_number('A'), 65);
    assert_eq!(char_index(&chars, 0), 0);
    assert_eq!(char_index(&chars, 3), 2);
    assert_eq!(char_index(&chars, 8), 4);
    assert_eq!(char_index(&chars, 99), 5);
    assert_eq!(span_of(&chars, 1, 3), "é");
    assert_eq!(number_text(0), "0");
    assert_eq!(number_text(10203), "10203");
}

#[test]
fn paths_have_parts() {
    assert_eq!(join_path("", "a"), "a");
    assert_eq!(join_path("a/b", "c"), "a/b/c");
    assert_eq!(path_from_root("/p", "a/b"), "/p/a/b");
    assert_eq!(parent_path("a/b/c"), "a/b");
    assert_eq!(parent_path("a"), "");
    assert_eq!(path_name("a/b/c"), "c");
    assert_eq!(file_extension("a.b.hpp"), Some("hpp".to_string()));
    assert_eq!(file_extension(".hidden"), None);
    assert_eq!(file_extension("plain"), None);
    assert_eq!(file_stem("a.b.hpp"), "a.b");
    assert_eq!(file_stem(".hidden"), ".hidden");
    assert!(with_extension("x.hpp", "hpp") && !with_extension("x.hpp", "h"));
    assert_eq!(to_plain_path("/p", "./a//b/"), Some("a/b".to_string()));
    assert_eq!(to_plain_path("/p", "a/../b"), Some("b".to_string()));
    assert_eq!(to_plain_path("/p", "../p/b"), Some("b".to_string()));
    assert_eq!(to_plain_path("/p", "../q"), Some("../q".to_string()));
    assert_eq!(to_plain_path("/p", "/p/x/../y"), Some("y".to_string()));
    assert_eq!(to_plain_path("/p/q", "/p/a/../b"), Some("../b".to_string()));
    assert_eq!(to_plain_path("p", "../../p"), Some("../../p".to_string()));
    assert_eq!(to_plain_path("../p", "a"), Some("a".to_string()));
    assert_eq!(to_plain_path("p", "/p/a"), None);
    assert_eq!(find_dir_name("/home/demo/"), Some("demo".to_string()));
    assert_eq!(find_dir_name("/"), None);
    assert_eq!(find_dir_name("a/.."), None);
}

#[test]
fn a_tree_is_read_by_path() {
    let t = ProjectTree {
        root: "/p".to_string(),
        entries: vec![
            Entry { path: "a".to_string(), is_dir: true, content: None },
            Entry { path: "a/x.hpp".to_string(), is_dir: false, content: Some("x".to_string()) },
            Entry { path: "a/raw.bin".to_string(), is_dir: false, content: None },
            Entry { path: "b.txt".to_string(), is_dir: false, content: Some("b".to_string()) },
        ],
    };
    assert!(t.has_path("a") && t.is_dir("a") && !t.is_file("a"));
    assert!(t.is_file("a/x.hpp") && !t.is_dir("a/x.hpp"));
    assert!(!t.has_path("c"));
    assert_eq!(t.read("a/x.hpp"), Some("x".to_string()));
    assert_eq!(t.read("a/raw.bin"), None);
    assert_eq!(t.read("a"), None);
    assert_eq!(t.list("a"), texts(&["x.hpp", "raw.bin"]));
    assert_eq!(t.list(""), texts(&["a", "b.txt"]));
    assert_eq!(t.headers("a"), vec![("x.hpp".to_string(), "x".to_string())]);
}

#[test]
fn a_table_keeps_one_value_for_a_key() {
    let mut t: Vec<(String, String)> = Vec::new();
    put(&mut t, "a".to_string(), "1".to_string());
    put(&mut t, "b".to_string(), "2".to_string());
    put(&mut t, "a".to_string(), "3".to_string());
    put_new(&mut t, "b".to_string(), "4".to_string());
    put_new(&mut t, "c".to_string(), "5".to_string());
    assert_eq!(find_key(&t, "c").map(|k| t[k].1.clone()), Some("5".to_string()));
    assert_eq!(find_key(&t, "a").map(|k| t[k].1.clone()), Some("3".to_string()));
    assert_eq!(find_key(&t, "b").map(|k| t[k].1.clone()), Some("2".to_string()));
    assert_eq!(find_key(&t, "d"), None);
    assert_eq!(t.len(), 3);
}

#[test]
fn a_hash_is_the_sha256_of_the_bytes() {
    assert_eq!(
        sha256_hex(""),
        "e3b0c44298fc1c149afbf4c8996fb92427ae41e4649b934ca495991b7852b855"
    );
    assert_eq!(
        sha256_hex("abc"),
        "ba7816bf8f01cfea414140de5dae2223b00361a396177a9cb410ff61f20015ad"
    );
}

#[test]
fn matches_carry_their_groups() {
    let found = find_matches(r"(\w)=(\d+)(x)?", "é a=12, b=3x");
    assert_eq!(found.len(), 2);
    assert_eq!((start_at(&found[0]), end_at(&found[0])), (3, 7));
    assert_eq!(span_at(&found[0], 2), Some((5, 7)));
    assert_eq!(span_at(&found[0], 3), None);
    assert_eq!(span_at(&found[0], 9), None);
    let chars = chars_of("é a=12, b=3x");
    assert_eq!(text_at(&chars, &found[1], 1), Some("b".to_string()));
    assert_eq!(text_at(&chars, &found[1], 3), Some("x".to_string()));
    assert_eq!(first_match(r"(\w)=(\d+)", "a=12", 2), Some("12".to_string()));
    assert_eq!(first_match(r"(\w)=(\d+)", "none", 2), None);
    assert!(is_match(r"^a+$", "aaa") && !is_match(r"^a+$", "aab"));
}

#[test]
fn a_rejected_pattern_matches_nothing() {
    assert!(find_matches("(", "((").is_empty());
    assert!(!is_match("(", "(("));
    assert_eq!(replace_matches("(", "((", "x"), "((");
}

#[test]
fn a_replacement_may_name_groups() {
    assert_eq!(replace_matches(r"(\w+)@(\w+)", "me@home you@work", "$2:$1"), "home:me work:you");
    assert_eq!(replace_matches(r"\d", "a1b2", ""), "ab");
}

#[test]
fn stripping_goes_on_until_nothing_matches() {
    let stripped = strip_matches(r"\([^()]*\)", "a(b(c)d)e");
    assert_eq!(stripped, "ae");
}

#[test]
fn json_is_read_in_order() {
    let items = parse_json(r#"{"a": "x", "b": ["y", 1, {"c": null}], "d": {}}"#).unwrap();
    let kinds: Vec<JsonKind> = items.iter().map(|i| i.kind).collect();
    assert_eq!(
        kinds,
        vec![
            JsonKind::Object,
            JsonKind::Text,
            JsonKind::List,
            JsonKind::Text,
            JsonKind::Literal,
            JsonKind::Object,
            JsonKind::Literal,
            JsonKind::End,
            JsonKind::End,
            JsonKind::Object,
            JsonKind::End,
            JsonKind::End,
        ]
    );
    assert_eq!(string_in(&items, 0, "a"), Some("x".to_string()));
    assert_eq!(string_in(&items, 0, "b"), None);
    let b = member_of(&items, 0, "b").unwrap();
    let list = members_of(&items, b);
    assert_eq!(list.len(), 3);
    assert_eq!(string_of(&items, Some(list[0])), Some("y".to_string()));
    assert_eq!(string_of(&items, Some(list[1])), None);
    assert_eq!(string_of(&items, None), None);
    assert_eq!(member_of(&items, list[2], "c"), Some(list[2] + 1));
    assert_eq!(member_of(&items, 0, "zzz"), None);
}

#[test]
fn escapes_of_json_are_undone() {
    let items = parse_json(r#""a\né""#).unwrap();
    assert_eq!(items.len(), 1);
    assert_eq!(items[0].text, "a\né");
}

#[test]
fn what_is_no_json_is_refused() {
    let e = parse_json("{").unwrap_err();
    assert_eq!(e, "EOF while parsing an object at line 1 column 1");
    assert!(parse_json("").is_err());
    assert!(parse_json("[1,]").is_err());
}

#[test]
fn a_json_value_is_flattened() {
    let value = serde_json::Value::Array(vec![serde_json::Value::String("s".to_string())]);
    let items = json_items_of(&value);
    assert_eq!(items.iter().map(|i| i.kind).collect::<Vec<_>>(), vec![JsonKind::List, JsonKind::Text, JsonKind::End]);
    assert_eq!(items[1].text, "s");
}
