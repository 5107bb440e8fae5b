use node_runtime::Json;

fn text(s: &str) -> Json {
    Json::Text(s.to_string())
}

#[test]
fn parses_scalars() {
    assert_eq!(Json::parse("null"), Some(Json::Null));
    assert_eq!(Json::parse("true"), Some(Json::Bool(true)));
    assert_eq!(Json::parse("false"), Some(Json::Bool(false)));
    assert_eq!(Json::parse("\"hi\""), Some(text("hi")));
}

#[test]
fn parses_the_three_kinds_of_number() {
    assert_eq!(Json::parse("0"), Some(Json::Unsigned(0)));
    assert_eq!(Json::parse("18446744073709551615"), Some(Json::Unsigned(u64::MAX)));
    assert_eq!(Json::parse("-1"), Some(Json::Negative(-1)));
    assert_eq!(Json::parse("-9223372036854775808"), Some(Json::Negative(i64::MIN)));
    assert_eq!(Json::parse("1.5"), Some(Json::Real("1.5".to_string())));
    assert_eq!(Json::parse("-0.25"), Some(Json::Real("-0.25".to_string())));
}

#[test]
fn parses_arrays_and_objects_in_order() {
    assert_eq!(
        Json::parse("[1,\"a\",[]]"),
        Some(Json::Array(vec![Json::Unsigned(1), text("a"), Json::Array(vec![])]))
    );
    assert_eq!(
        Json::parse("{\"z\":1,\"a\":{\"k\":null}}"),
        Some(Json::Object(vec![
            ("z".to_string(), Json::Unsigned(1)),
            ("a".to_string(), Json::Object(vec![("k".to_string(), Json::Null)])),
        ]))
    );
}

#[test]
fn parse_unescapes_strings() {
    assert_eq!(Json::parse("\"a\\nb\\u0041\""), Some(text("a\nbA")));
}

#[test]
fn parse_refuses_what_is_not_json() {
    assert_eq!(Json::parse(""), None);
    assert_eq!(Json::parse("not json"), None);
    assert_eq!(Json::parse("{\"a\":"), None);
    assert_eq!(Json::parse("{} {}"), None);
    assert_eq!(Json::parse("{'a':1}"), None);
}

#[test]
fn parse_allows_surrounding_blanks() {
    assert_eq!(Json::parse("  [ 1 , 2 ]  "), Some(Json::Array(vec![Json::Unsigned(1), Json::Unsigned(2)])));
}

#[test]
fn prints_scalars() {
    assert_eq!(Json::Null.to_text(), "null");
    assert_eq!(Json::Bool(true).to_text(), "true");
    assert_eq!(Json::Unsigned(42).to_text(), "42");
    assert_eq!(Json::Negative(-7).to_text(), "-7");
    assert_eq!(Json::Real("1.5".to_string()).to_text(), "1.5");
    assert_eq!(text("hi").to_text(), "\"hi\"");
}

#[test]
fn print_escapes_strings() {
    assert_eq!(text("a\"b\\c\nd").to_text(), "\"a\\\"b\\\\c\\nd\"");
}

#[test]
fn prints_objects_compactly_and_in_order() {
    let value = Json::Object(vec![
        ("z".to_string(), Json::Unsigned(1)),
        ("a".to_string(), Json::Array(vec![Json::Null, Json::Bool(false)])),
    ]);
    assert_eq!(value.to_text(), "{\"z\":1,\"a\":[null,false]}");
}

#[test]
fn a_real_that_is_no_number_prints_as_null() {
    assert_eq!(Json::Real("abc".to_string()).to_text(), "null");
}

#[test]
fn printed_text_has_no_newline() {
    let value = Json::Object(vec![("k".to_string(), text("line one\nline two"))]);
    assert!(!value.to_text().contains('\n'));
}

#[test]
fn text_is_read_back_as_printed() {
    let value = Json::Object(vec![
        ("n".to_string(), Json::Unsigned(3)),
        ("m".to_string(), Json::Negative(-3)),
        ("r".to_string(), Json::Real("2.5".to_string())),
        ("t".to_string(), text("x \u{1F600} \"q\"")),
        ("l".to_string(), Json::Array(vec![Json::Null, Json::Bool(true)])),
    ]);
    assert_eq!(Json::parse(&value.to_text()), Some(value));
}

#[test]
fn clone_copies_the_whole_value() {
    let value = Json::Object(vec![
        ("l".to_string(), Json::Array(vec![Json::Unsigned(1), text("two")])),
        ("o".to_string(), Json::Object(vec![("k".to_string(), Json::Real("0.5".to_string()))])),
    ]);
    assert_eq!(value.clone(), value);
}

#[test]
fn of_members_with_one_name_the_last_value_is_printed() {
    let value = Json::Object(vec![
        ("a".to_string(), Json::Unsigned(1)),
        ("b".to_string(), Json::Unsigned(2)),
        ("a".to_string(), Json::Unsigned(3)),
    ]);
    assert_eq!(value.to_text(), "{\"a\":3,\"b\":2}");
    assert_eq!(
        Json::parse("{\"a\":1,\"b\":2,\"a\":3}"),
        Some(Json::Object(vec![("a".to_string(), Json::Unsigned(3)), ("b".to_string(), Json::Unsigned(2))]))
    );
}

#[test]
fn a_non_negative_integer_prints_the_same_in_either_kind() {
    assert_eq!(Json::Negative(5).to_text(), "5");
    assert_eq!(Json::Real("7".to_string()).to_text(), "7");
}

#[test]
fn parse_refuses_text_nested_too_deeply() {
    let deep = format!("{}{}", "[".repeat(200), "]".repeat(200));
    assert_eq!(Json::parse(&deep), None);
    let fine = format!("{}{}", "[".repeat(100), "]".repeat(100));
    assert!(Json::parse(&fine).is_some());
}

#[test]
fn same_compares_values() {
    let a = Json::Object(vec![
        ("n".to_string(), Json::Unsigned(3)),
        ("l".to_string(), Json::Array(vec![Json::Null, text("x"), Json::Real("1.5".to_string())])),
    ]);
    assert!(a.same(&a.clone()));
    assert!(Json::Null.same(&Json::Null));
    assert!(!Json::Null.same(&Json::Bool(false)));
    assert!(!Json::Unsigned(1).same(&Json::Negative(1)));
    assert!(!Json::Unsigned(1).same(&Json::Unsigned(2)));
    assert!(!text("1.5").same(&Json::Real("1.5".to_string())));
    assert!(!Json::Array(vec![Json::Null]).same(&Json::Array(vec![])));
    assert!(!Json::Array(vec![Json::Null]).same(&Json::Array(vec![Json::Bool(true)])));
    let renamed = Json::Object(vec![
        ("m".to_string(), Json::Unsigned(3)),
        ("l".to_string(), Json::Array(vec![Json::Null, text("x"), Json::Real("1.5".to_string())])),
    ]);
    assert!(!a.same(&renamed));
    let reordered = Json::Object(vec![
        ("l".to_string(), Json::Array(vec![Json::Null, text("x"), Json::Real("1.5".to_string())])),
        ("n".to_string(), Json::Unsigned(3)),
    ]);
    assert!(!a.same(&reordered));
}
