//! Text, paths, lines, lists and tables.
use rh::bytes::{extend, take_line};
use rh::json::{parse, Json, Number};
use rh::order::sort;
use rh::path;
use rh::plugins::read_descriptors;
use rh::table::Table;
use rh::text::{
    chars_of, clip, concat2, concat3, contains, decimal_text, find_from, join, lines, replace,
    same, starts_with, strip_prefix, text_between, trim, trim_end, trim_end_matches, trim_start,
    trim_start_matches, truncate,
};

#[test]
fn texts_are_compared_and_joined() {
    assert!(same("a", "a"));
    assert!(!same("a", "b"));
    assert_eq!(concat2("a", "b"), "ab");
    assert_eq!(concat3("a", "b", "c"), "abc");
    assert_eq!(join(&vec!["a".to_string(), "b".to_string()], ", "), "a, b");
    assert_eq!(join(&vec![], ", "), "");
    assert_eq!(chars_of("é!"), vec!['é', '!']);
    assert_eq!(text_between(&chars_of("hello"), 1, 3), "el");
}

#[test]
fn numbers_are_written_in_decimal() {
    assert_eq!(decimal_text(0), "0");
    assert_eq!(decimal_text(1090), "1090");
    assert_eq!(decimal_text(u64::MAX), "18446744073709551615");
}

#[test]
fn parts_of_texts_are_found() {
    assert!(starts_with("data: x", "data:"));
    assert!(!starts_with("dat", "data:"));
    assert_eq!(strip_prefix("data: x", "data:"), Some(" x".to_string()));
    assert_eq!(strip_prefix("event", "data:"), None);
    assert_eq!(find_from(&chars_of("abcabc"), &chars_of("bc"), 2), Some(4));
    assert_eq!(find_from(&chars_of("abc"), &chars_of("bc"), 2), None);
    assert!(contains("hello", "ell"));
    assert!(contains("hello", ""));
    assert!(!contains("hello", "elk"));
    assert_eq!(replace("aXbXX", "X", "--"), "a--b----");
    assert_eq!(replace("aaa", "aa", "b"), "ba");
}

#[test]
fn ends_are_trimmed() {
    assert_eq!(trim("\t a b \u{a0}\n"), "a b");
    assert_eq!(trim_start("  a "), "a ");
    assert_eq!(trim_end("  a "), "  a");
    assert_eq!(trim("   "), "");
    assert_eq!(trim_end_matches("http://x//", '/'), "http://x");
    assert_eq!(trim_start_matches("//x/", '/'), "x/");
}

#[test]
fn long_texts_are_cut() {
    assert_eq!(clip("你好吗", 2), "你好");
    assert_eq!(clip("ab", 2), "ab");
    assert_eq!(truncate("abc", 2), "ab…");
    assert_eq!(truncate("abc", 3), "abc");
}

#[test]
fn a_text_is_split_into_lines() {
    assert_eq!(lines("a\r\nb\n\nc"), vec!["a", "b", "", "c"]);
    assert_eq!(lines("a\n"), vec!["a"]);
    assert!(lines("").is_empty());
    assert_eq!(lines("a\rb"), vec!["a\rb"]);
}

#[test]
fn bytes_are_split_into_lines() {
    let mut buf: Vec<u8> = Vec::new();
    extend(&mut buf, &b"one\ntw".to_vec());
    assert_eq!(take_line(&mut buf), Some("one".to_string()));
    assert_eq!(take_line(&mut buf), None);
    extend(&mut buf, &b"o\n".to_vec());
    assert_eq!(take_line(&mut buf), Some("two".to_string()));
    assert!(buf.is_empty());
    extend(&mut buf, &vec![0xe4, 0xbd, 0xa0, b'\n', 0xff, b'\n']);
    assert_eq!(take_line(&mut buf), Some("你".to_string()));
    assert_eq!(take_line(&mut buf), Some("\u{fffd}".to_string()));
}

#[test]
fn paths_are_put_together() {
    assert!(path::is_absolute("/a"));
    assert!(!path::is_absolute("a"));
    assert_eq!(path::join("/a", "b"), "/a/b");
    assert_eq!(path::join("/a/", "b"), "/a/b");
    assert_eq!(path::join("/a", "/b"), "/b");
    assert_eq!(path::relative("/a/b/c.txt", "/a"), "b/c.txt");
    assert_eq!(path::relative("/x/c.txt", "/a"), "/x/c.txt");
    assert_eq!(path::relative("/p/./w/a", "/p"), "w/a");
    assert_eq!(path::relative("/p//.//./w/./a", "/p"), "w/./a");
    assert_eq!(path::relative("/p/.w/a", "/p"), ".w/a");
    assert_eq!(path::relative("/p/.", "/p"), "");
    assert_eq!(path::extension("a.tar.gz"), Some("gz".to_string()));
    assert_eq!(path::extension("Makefile"), None);
    assert_eq!(path::extension(".bashrc"), None);
    assert_eq!(path::stem("notes.md"), "notes");
    assert_eq!(path::stem(".bashrc"), ".bashrc");
}

#[test]
fn texts_are_sorted() {
    let v: Vec<String> = ["b", "a", "ab", "", "你", "Z"].iter().map(|s| s.to_string()).collect();
    assert_eq!(sort(v), vec!["", "Z", "a", "ab", "b", "你"]);
}

#[test]
fn a_table_keeps_the_order_of_its_keys() {
    let mut t: Table<u32> = Table::new();
    t.put("a", 1);
    t.put("b", 2);
    t.put("a", 3);
    assert_eq!(t.len(), 2);
    assert_eq!((t.key_at(0), t.value_at(0)), ("a", &3));
    *t.get_mut("b").unwrap() = 5;
    assert_eq!(t.get("b"), Some(&5));
    assert!(t.contains("a"));
    assert!(t.remove("a"));
    assert!(!t.remove("a"));
    assert_eq!(t.get("a"), None);
    assert!(t.get_mut("a").is_none());
}

#[test]
fn json_is_read_and_written() {
    let j = parse(" {\"b\": [1, -2, 2.50, 1e3], \"a\": \"x\\n\\u00e9\", \"c\": null, \"d\": true} ").unwrap();
    assert_eq!(
        j.to_text(),
        "{\"a\":\"x\\né\",\"b\":[1,-2,2.5,1000.0],\"c\":null,\"d\":true}"
    );
    assert_eq!(j.str_at("a"), Some("x\né"));
    assert_eq!(j.array_at("b").unwrap().len(), 4);
    assert_eq!(j.array_at("b").unwrap()[0].as_u64(), Some(1));
    assert_eq!(j.array_at("b").unwrap()[1].as_u64(), None);
    assert!(j.get("c").unwrap().is_null());
    assert_eq!(j.bool_at("d"), Some(true));
    assert_eq!(j.get("e").map(|x| x.is_null()), None);
    assert_eq!(parse(&j.to_text()).unwrap().to_text(), j.to_text());
    assert_eq!(parse(&j.to_text_pretty()).unwrap().to_text(), j.to_text());
    assert_eq!(Json::array(vec![Json::number(1)]).to_text_pretty(), "[\n  1\n]");
}

#[test]
fn broken_json_is_told_apart() {
    assert_eq!(parse("{").unwrap_err(), "EOF while parsing an object at line 1 column 1");
    assert_eq!(parse("").unwrap_err(), "EOF while parsing a value at line 1 column 0");
    assert!(parse("1 2").is_err());
}

#[test]
fn the_last_member_of_a_name_counts() {
    let j = parse("{\"a\":1,\"a\":2}").unwrap();
    assert_eq!(j.u64_at("a"), Some(2));
    let j = Json::object().with("a", Json::number(1)).with("a", Json::text("x"));
    assert_eq!(j.to_text(), "{\"a\":\"x\"}");
    assert_eq!(j.str_at("a"), Some("x"));
    assert_eq!(j.u64_at("a"), None);
}

#[test]
fn numbers_keep_their_form() {
    for text in ["0", "18446744073709551615", "-9223372036854775808", "0.1", "1e+300", "-0.0"] {
        assert_eq!(parse(text).unwrap().to_text(), text);
    }
    assert_eq!(Json::Number(Number::signed(-7)).to_text(), "-7");
    assert_eq!(Json::Number(Number::signed(7)).to_text(), "7");
    assert_eq!(Json::Number(Number::unsigned(8).copied()).as_u64(), Some(8));
    assert_eq!(Json::optional_text(None).to_text(), "null");
    assert_eq!(Json::optional_text(Some("x".to_string())).to_text(), "\"x\"");
}

#[test]
fn no_member_name_is_special() {
    for name in ["$serde_json::private::RawValue", "$serde_json::private::Number"] {
        let object = Json::object().with(name, Json::text("[1]"));
        for text in [object.to_text(), object.to_text_pretty()] {
            let back = parse(&text).unwrap();
            assert_eq!(back.str_at(name), Some("[1]"));
            assert_eq!(back.to_text(), object.to_text());
            assert!(read_descriptors(&text).is_err());
        }
    }
}

#[test]
fn white_space_is_that_of_unicode() {
    for code in 0..=0x10ffffu32 {
        if let Some(c) = char::from_u32(code) {
            let white = matches!(
                code,
                0x9..=0xd | 0x20 | 0x85 | 0xa0 | 0x1680 | 0x2000..=0x200a | 0x2028 | 0x2029 | 0x202f
                    | 0x205f | 0x3000
            );
            assert_eq!(c.is_whitespace(), white);
        }
    }
}

#[test]
fn the_later_of_two_members_is_written() {
    let object = Json::object()
        .with("b", Json::number(1))
        .with("a", Json::number(2))
        .with("b", Json::object().with("c", Json::Null).with("c", Json::text("d")));
    assert_eq!(object.to_text(), "{\"a\":2,\"b\":{\"c\":\"d\"}}");
    assert_eq!(parse(&object.to_text_pretty()).unwrap().to_text(), object.to_text());
}
