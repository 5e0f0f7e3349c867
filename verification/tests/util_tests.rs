use tedge_gateway::json::{clone_json, get_field, get_path, remove_field, set_field, Json};
use tedge_gateway::order::{sorted, text_before_or_same};
use tedge_gateway::string_map::StringMap;
use tedge_gateway::text::{
    chars_of, contains_char, decimal_text, join, same_text, split, starts_with, string_of,
    strip_prefix,
};

#[test]
fn texts_are_split_and_joined() {
    assert_eq!(split("a/b//c", '/'), vec!["a", "b", "", "c"]);
    assert_eq!(split("", '/'), vec![""]);
    assert_eq!(split("/", '/'), vec!["", ""]);
    assert_eq!(split("abc", '/'), vec!["abc"]);
    let pieces: Vec<String> = vec!["a".into(), "".into(), "b".into()];
    assert_eq!(join(&pieces, "/"), "a//b");
    assert_eq!(join(&pieces, ", "), "a, , b");
    assert_eq!(join(&vec![], "/"), "");
    assert_eq!(split(&join(&pieces, "/"), '/'), pieces);
}

#[test]
fn texts_are_compared() {
    assert!(same_text("héllo", "héllo"));
    assert!(!same_text("a", "b"));
    assert!(starts_with("c8y-mapper-1", "c8y-mapper"));
    assert!(starts_with("a", ""));
    assert!(!starts_with("c8y", "c8y-mapper"));
    assert_eq!(strip_prefix("te/device", "te/"), Some("device".to_string()));
    assert_eq!(strip_prefix("te/", "te/"), Some("".to_string()));
    assert_eq!(strip_prefix("tedge/device", "te/"), None);
    assert!(contains_char("a+b", '+'));
    assert!(!contains_char("ab", '+'));
    assert_eq!(string_of(&chars_of("grüße")), "grüße");
}

#[test]
fn numbers_are_written_in_base_ten() {
    assert_eq!(decimal_text(0), "0");
    assert_eq!(decimal_text(7), "7");
    assert_eq!(decimal_text(10), "10");
    assert_eq!(decimal_text(101), "101");
    assert_eq!(decimal_text(u64::MAX), "18446744073709551615");
}

#[test]
fn texts_are_sorted_as_strings_are() {
    let words = ["b", "a", "", "ab", "B", "é", "z", "a", "aa", "~", "10", "9"];
    let mut expected: Vec<String> = words.iter().map(|w| w.to_string()).collect();
    expected.sort();
    assert_eq!(sorted(words.iter().map(|w| w.to_string()).collect()), expected);
    for a in words {
        for b in words {
            assert_eq!(text_before_or_same(a, b), a <= b, "{} {}", a, b);
        }
    }
}

#[test]
fn a_string_map_keeps_the_order_of_its_keys() {
    let mut map: StringMap<u32> = StringMap::new();
    assert_eq!(map.len(), 0);
    assert_eq!(map.insert("b".into(), 1), None);
    assert_eq!(map.insert("a".into(), 2), None);
    assert_eq!(map.insert("b".into(), 3), Some(1));
    assert_eq!(map.len(), 2);
    assert_eq!(map.get("b"), Some(&3));
    assert_eq!(map.get("a"), Some(&2));
    assert_eq!(map.get("c"), None);
    assert!(map.contains_key("a"));
    assert_eq!((map.key_at(0), *map.value_at(0)), ("b", 3));
    assert_eq!((map.key_at(1), *map.value_at(1)), ("a", 2));
    assert_eq!(map.remove("b"), Some(3));
    assert_eq!(map.remove("b"), None);
    assert_eq!(map.len(), 1);
    assert_eq!(map.key_at(0), "a");
}

fn to_value(json: &Json) -> serde_json::Value {
    serde_json::from_str(&json.to_text().unwrap()).unwrap()
}

#[test]
fn json_is_read_and_written() {
    let text = r#"{"b":[1,2.5,-3,1e3,"x",null,true,{"c":{}}],"a":"é\"\n","n":12345678901234567890}"#;
    let json = Json::parse(text.as_bytes()).unwrap();
    let expected: serde_json::Value = serde_json::from_str(text).unwrap();
    assert_eq!(to_value(&json), expected);
    assert_eq!(to_value(&clone_json(&json)), expected);
    assert_eq!(json.to_text().unwrap(), serde_json::to_string(&expected).unwrap());
    match &json {
        Json::Object(fields) => {
            assert_eq!(fields.len(), 3);
            assert_eq!(fields[0].0, "a");
            assert!(matches!(&fields[0].1, Json::Text(t) if t == "é\"\n"));
            assert!(matches!(&fields[2].1, Json::Number(n) if n == "12345678901234567890"));
        }
        other => panic!("unexpected: {:?}", other),
    }
    for text in ["", "{", "[1,]", "nul", "{\"a\":1}x", "'a'"] {
        assert!(Json::parse(text.as_bytes()).is_none(), "{}", text);
    }
    assert!(Json::parse(&[0xff]).is_none());
    assert_eq!(Json::Null.to_text().unwrap(), "null");
    assert!(Json::Number("not a number".into()).to_text().is_none());
    assert!(Json::Array(vec![Json::Number("1".into()), Json::Number("1.".into())]).to_text().is_none());
    assert_eq!(Json::Text("a\"b".into()).to_text().unwrap(), r#""a\"b""#);
}

#[test]
fn the_first_field_of_a_name_counts() {
    let fields = vec![
        ("a".to_string(), Json::Number("1".into())),
        ("b".to_string(), Json::Number("2".into())),
        ("a".to_string(), Json::Number("3".into())),
    ];
    assert!(matches!(get_field(&fields, "a"), Some(Json::Number(n)) if n == "1"));
    assert!(get_field(&fields, "c").is_none());
    let object = Json::Object(fields);
    assert_eq!(object.to_text().unwrap(), r#"{"a":1,"b":2}"#);
    assert!(matches!(object.get("b"), Some(Json::Number(n)) if n == "2"));
    assert!(Json::Null.get("a").is_none());
    assert_eq!(Json::Text("t".into()).as_str(), Some("t"));
    assert_eq!(Json::Null.as_str(), None);
}

#[test]
fn fields_are_set_and_removed() {
    let fields = vec![
        ("a".to_string(), Json::Number("1".into())),
        ("b".to_string(), Json::Number("2".into())),
        ("a".to_string(), Json::Number("3".into())),
    ];
    let fields = set_field(fields, "a", Json::Bool(true));
    assert_eq!(Json::Object(fields.clone()).to_text().unwrap(), r#"{"a":true,"b":2}"#);
    assert_eq!(fields.len(), 2);
    let fields = remove_field(fields, "b");
    assert_eq!(Json::Object(fields.clone()).to_text().unwrap(), r#"{"a":true}"#);
    let fields = remove_field(fields, "missing");
    assert_eq!(fields.len(), 1);
}

#[test]
fn values_are_found_by_paths() {
    let json = Json::parse(br#"{"a":{"b":{"c":7}},"x":[1]}"#).unwrap();
    let keys: Vec<String> = vec!["skipped".into(), "a".into(), "b".into(), "c".into()];
    assert!(matches!(get_path(&json, &keys, 1), Some(Json::Number(n)) if n == "7"));
    assert!(get_path(&json, &keys, 0).is_none());
    assert!(matches!(get_path(&json, &keys, 4), Some(Json::Object(_))));
    let keys: Vec<String> = vec!["x".into(), "0".into()];
    assert!(get_path(&json, &keys, 0).is_none());
}

#[test]
fn only_the_fields_that_count_are_written() {
    let inner = Json::Object(vec![
        ("k".to_string(), Json::Number("1".into())),
        ("k".to_string(), Json::Number("2".into())),
    ]);
    let json = Json::Array(vec![Json::Object(vec![
        ("a".to_string(), inner),
        ("a".to_string(), Json::Null),
        ("b".to_string(), Json::Text("t".into())),
    ])]);
    assert_eq!(json.to_text().unwrap(), r#"[{"a":{"k":1},"b":"t"}]"#);
    match json.settled() {
        Json::Array(items) => match &items[0] {
            Json::Object(fields) => {
                assert_eq!(fields.len(), 2);
                assert_eq!(fields[0].0, "a");
                assert!(matches!(&fields[0].1, Json::Object(inner) if inner.len() == 1));
                assert_eq!(fields[1].0, "b");
            }
            other => panic!("unexpected: {:?}", other),
        },
        other => panic!("unexpected: {:?}", other),
    }
}
