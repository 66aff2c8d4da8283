use gosh_agent::codec::{constant_time_eq, hex_lower, sha256_hex, short_hash};
use gosh_agent::json::Json;
use gosh_agent::strmap::StrMap;
use gosh_agent::text::{
    contains, decimal_of, decimal_of_signed, ends_with, is_number, join, lines_of, parse_i64, parse_u64,
    replace, starts_with, strip_prefix, take_before, take_chars, trim, trim_suffixes,
};

#[test]
fn json_is_read_back() {
    for text in [
        "null",
        "true",
        "-3",
        "18446744073709551615",
        "1.5",
        "\"a\\\"b\\n\"",
        "[1,[],{}]",
        "{\"a\":1,\"b\":[null,false]}",
    ] {
        let value = Json::parse(text).expect("a JSON text");
        assert_eq!(value.to_text(), text);
        assert_eq!(value.copy().to_text(), text);
    }
    assert!(Json::parse("{").is_none());
    assert!(Json::parse("1 2").is_none());
}

#[test]
fn json_keys_are_found_and_changed() {
    let mut value = Json::parse("{\"b\":1,\"a\":2}").unwrap();
    assert_eq!(value.sorted_keys(), vec!["a", "b"]);
    assert_eq!(value.get("a").and_then(|v| v.as_u64()), Some(2));
    assert_eq!(value.get("a").and_then(|v| v.as_i64()), Some(2));
    assert!(value.get("c").is_none());
    value.set("a", Json::text("x"));
    assert_eq!(value.get_str("a"), Some("x"));
    assert!(value.remove("b"));
    assert!(!value.remove("b"));
    assert_eq!(value.to_text(), "{\"a\":\"x\"}");
    let repeated = Json::parse("{\"a\":1,\"a\":2}").unwrap();
    assert_eq!(repeated.to_text(), "{\"a\":2}");
    assert_eq!(Json::parse("-1").unwrap().as_u64(), None);
    assert_eq!(Json::parse("9223372036854775808").unwrap().as_i64(), None);
}

#[test]
fn numbers_are_read_back() {
    for n in [0, 1, 9, 10, 12345, u64::MAX] {
        assert_eq!(decimal_of(n), n.to_string());
        assert_eq!(parse_u64(&decimal_of(n)), Some(n));
    }
    for n in [0, -1, 1, i64::MIN, i64::MAX] {
        assert_eq!(decimal_of_signed(n), n.to_string());
        assert_eq!(parse_i64(&decimal_of_signed(n)), Some(n));
    }
    assert_eq!(parse_u64("+7"), Some(7));
    assert_eq!(parse_u64("-7"), None);
    assert_eq!(parse_u64(""), None);
    assert_eq!(parse_u64("18446744073709551616"), None);
    assert_eq!(parse_i64("-9223372036854775809"), None);
}

#[test]
fn texts_are_cut_as_std_cuts_them() {
    for s in ["", " ", "a", " a b\u{3000}", "é/é", "a\r\nb\n\nc", "x\n"] {
        assert_eq!(trim(s), s.trim());
        assert_eq!(contains(s, "é"), s.contains("é"));
        assert_eq!(starts_with(s, "é/"), s.starts_with("é/"));
        assert_eq!(ends_with(s, "/é"), s.ends_with("/é"));
        assert_eq!(strip_prefix(s, " a"), s.strip_prefix(" a"));
        assert_eq!(replace(s, '/', "__"), s.replace('/', "__"));
        assert_eq!(lines_of(s), s.lines().map(|l| l.to_string()).collect::<Vec<_>>());
        assert_eq!(take_chars(s, 2), s.chars().take(2).collect::<String>());
    }
    assert_eq!(trim_suffixes("a/mcp/mcp", "/mcp"), "a");
    assert_eq!(take_before("a:b:c", ":"), "a");
    let parts = vec!["a".to_string(), "b".to_string()];
    assert_eq!(join(&parts, ", "), "a, b");
}

#[test]
fn digests_are_those_of_sha256() {
    assert_eq!(
        sha256_hex("abc"),
        "ba7816bf8f01cfea414140de5dae2223b00361a396177a9cb410ff61f20015ad"
    );
    assert!(sha256_hex("abc").starts_with(&short_hash("abc")));
    assert_eq!(hex_lower(&[0, 10, 255]), "000aff");
    assert!(constant_time_eq(b"ab", b"ab"));
    assert!(!constant_time_eq(b"ab", b"ac"));
    assert!(!constant_time_eq(b"ab", b"abc"));
}

#[test]
fn maps_hold_the_last_value_of_a_key() {
    let mut map: StrMap<u32> = StrMap::new();
    assert_eq!(map.len(), 0);
    map.insert("b", 1);
    map.insert("a", 2);
    map.insert("b", 3);
    assert_eq!(map.len(), 2);
    assert_eq!(map.get("b"), Some(&3));
    assert_eq!(map.sorted_keys(), vec!["a", "b"]);
    assert_eq!(map.copy().get("a"), Some(&2));
    assert_eq!(map.remove("a"), Some(2));
    assert_eq!(map.remove("a"), None);
    assert_eq!(map.len(), 1);
}

#[test]
fn texts_spell_numbers_or_do_not() {
    for s in ["0.3", "5", "-1", "+.5", "7.", "1e3", "1.5E-2", "inf", "-Infinity", "NaN"] {
        assert!(is_number(s), "{s}");
        assert!(s.parse::<f64>().is_ok(), "{s}");
    }
    for s in ["", ".", "-", "e3", "1e", "1e+", "0x1", " 1", "1 ", "many", "1.2.3", "infinite"] {
        assert!(!is_number(s), "{s}");
        assert!(s.parse::<f64>().is_err(), "{s}");
    }
}

#[test]
fn json_is_read_with_a_reason_and_written_over_lines() {
    let value = Json::read("{\"a\":[1]}").unwrap();
    assert_eq!(value.to_text(), "{\"a\":[1]}");
    assert_eq!(value.to_pretty_text(), "{\n  \"a\": [\n    1\n  ]\n}");
    assert_eq!(
        Json::read("{ nope").unwrap_err(),
        "key must be a string at line 1 column 3"
    );
}
