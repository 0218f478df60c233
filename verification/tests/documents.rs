use codex_remote::json::{duplicate_all, duplicate_opt, Json, JsonObject, RAW_VALUE_NAME};
use codex_remote::text;

#[test]
fn documents_are_read_and_written() {
    let value = Json::read(r#" {"b": [1, -2, 1.5, true, null], "a": "x\n\"é"} "#)
        .expect("document");
    assert_eq!(value.text(), "{\"a\":\"x\\n\\\"\u{e9}\",\"b\":[1,-2,1.5,true,null]}");
    assert_eq!(Json::read(&value.text()), Ok(value.duplicate()));
    assert!(Json::read("{").is_err());
    assert_eq!(Json::parse("{"), None);
    assert_eq!(Json::parse("7"), Some(Json::integer(7)));
}

#[test]
fn objects_that_look_raw_are_not_read_back() {
    let mut object = JsonObject::new();
    object.insert(RAW_VALUE_NAME.to_string(), Json::string("1"));
    let value = Json::Object(object.duplicate());
    assert_eq!(value.text(), format!(r#"{{"{RAW_VALUE_NAME}":"1"}}"#));
    assert_eq!(Json::read(&value.text()), Ok(Json::integer(1)));

    object.insert("!".to_string(), Json::Null);
    let value = Json::Object(object);
    assert_eq!(Json::read(&value.text()), Ok(value.duplicate()));
}

#[test]
fn last_of_equal_names_stays() {
    let value = Json::read(r#"{"a": 1, "a": 2}"#).expect("document");
    assert_eq!(value.get_i64("a"), Some(2));
    assert_eq!(value.text(), r#"{"a":2}"#);
}

#[test]
fn numbers_keep_their_range() {
    let value = Json::read("[18446744073709551615, -9223372036854775808, 0.5]").expect("list");
    let items = value.as_array().expect("list");
    assert_eq!(items[0].as_u64(), Some(u64::MAX));
    assert_eq!(items[0].as_i64(), None);
    assert_eq!(items[1].as_i64(), Some(i64::MIN));
    assert_eq!(items[1].as_u64(), None);
    assert_eq!(items[2].as_i64(), None);
    assert_eq!(value.text(), "[18446744073709551615,-9223372036854775808,0.5]");
}

#[test]
fn members_are_found_changed_and_removed() {
    let mut object = JsonObject::new();
    object.insert("b".to_string(), Json::integer(1));
    object.insert("a".to_string(), Json::string("x"));
    object.insert("b".to_string(), Json::Bool(true));
    assert_eq!(object.get("b"), Some(&Json::Bool(true)));
    assert_eq!(object.names(), vec!["a".to_string(), "b".to_string()]);
    object.remove("b");
    assert_eq!(object.get("b"), None);
    object.remove("b");
    let value = Json::Object(object.duplicate());
    assert_eq!(value.get_str("a"), Some("x"));
    assert_eq!(value.as_object(), Some(&object));
    assert_eq!(value.get2("a", "b"), None);
    assert_eq!(Json::Null.get("a"), None);
}

#[test]
fn copies_are_equal() {
    let items = vec![Json::integer(1), Json::Null];
    assert_eq!(duplicate_all(&items), items);
    assert_eq!(duplicate_opt(&None), None);
    assert_eq!(duplicate_opt(&Some(Json::Null)), Some(Json::Null));
}

#[test]
fn texts_are_cut_and_joined() {
    assert_eq!(text::trim(" \u{a0}a b\n"), "a b");
    assert_eq!(text::trim_start("\t x "), "x ");
    assert_eq!(text::trim_line_end("x \r\n\n"), "x ");
    assert_eq!(text::strip_prefix("data: x", "data:"), Some(" x"));
    assert_eq!(text::strip_prefix("x", "data:"), None);
    assert!(text::contains("abc", "bc"));
    assert!(text::contains("abc", ""));
    assert!(!text::contains("abc", "cb"));
    assert_eq!(text::concat2("a", "b"), "ab");
    assert_eq!(text::concat3("a", "b", "c"), "abc");
    assert_eq!(
        text::join(&vec!["a".to_string(), "b".to_string()], "\n"),
        "a\nb"
    );
    assert_eq!(text::chars_of("a\u{e9}"), vec!['a', '\u{e9}']);
}

#[test]
fn letters_are_lowered_in_ascii_only() {
    assert_eq!(text::to_ascii_lowercase("AbC\u{c9}"), "abc\u{c9}");
    assert!(text::eq_ignore_ascii_case("KiMi", "kimi"));
    assert!(!text::eq_ignore_ascii_case("\u{c9}", "\u{e9}"));
}

#[test]
fn numbers_are_written_in_decimal() {
    assert_eq!(text::u64_text(0), "0");
    assert_eq!(text::u64_text(u64::MAX), u64::MAX.to_string());
    assert_eq!(text::i64_text(i64::MIN), i64::MIN.to_string());
    assert_eq!(text::i64_text(-7), "-7");
}

#[test]
fn texts_are_ordered() {
    assert!(text::is_text_less("a", "b"));
    assert!(text::is_text_less("", "a"));
    assert!(text::is_text_less("a", "aa"));
    assert!(!text::is_text_less("a", "a"));
    assert!(text::is_text_less("z", "\u{e9}"));
}
