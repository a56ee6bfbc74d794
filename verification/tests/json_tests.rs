use arduino_mcp_adapter::json::{
    array_from, duplicate_opt, find_member, member, object_from, Json, JsonKind, JsonNumber,
};

fn sample() -> Json {
    Json::Object(vec![
        ("name".to_string(), Json::Str("setSpeed".to_string())),
        ("value".to_string(), Json::Number(JsonNumber::PosInt(150))),
        ("neg".to_string(), Json::Number(JsonNumber::NegInt(-7))),
        ("ratio".to_string(), Json::Number(JsonNumber::Float("1.5".to_string()))),
        ("flag".to_string(), Json::Bool(true)),
        ("nothing".to_string(), Json::Null),
        ("list".to_string(), Json::Array(vec![Json::Null, Json::Bool(false)])),
        ("value".to_string(), Json::Str("shadowed".to_string())),
    ])
}

#[test]
fn json_get_finds_the_first_member_with_the_key() {
    let value = sample();
    assert_eq!(value.get("name"), Some(&Json::Str("setSpeed".to_string())));
    assert_eq!(value.get("value"), Some(&Json::Number(JsonNumber::PosInt(150))));
    assert_eq!(value.get("missing"), None);
    assert_eq!(Json::Null.get("name"), None);
    assert_eq!(Json::Array(vec![]).get("name"), None);
}

#[test]
fn json_find_member_gives_the_position_or_the_length() {
    let members = vec![
        ("a".to_string(), Json::Null),
        ("b".to_string(), Json::Null),
        ("a".to_string(), Json::Bool(true)),
    ];
    assert_eq!(find_member(&members, "a"), 0);
    assert_eq!(find_member(&members, "b"), 1);
    assert_eq!(find_member(&members, "c"), 3);
}

#[test]
fn json_kind_tells_the_six_kinds_apart() {
    assert_eq!(Json::Null.kind(), JsonKind::Null);
    assert_eq!(Json::Bool(false).kind(), JsonKind::Bool);
    assert_eq!(Json::integer(3).kind(), JsonKind::Number);
    assert_eq!(Json::text("x").kind(), JsonKind::Str);
    assert_eq!(Json::Array(vec![]).kind(), JsonKind::Array);
    assert_eq!(Json::Object(vec![]).kind(), JsonKind::Object);
}

#[test]
fn json_numbers_as_signed_and_unsigned() {
    assert_eq!(JsonNumber::PosInt(5).as_i64(), Some(5));
    assert_eq!(JsonNumber::PosInt(5).as_u64(), Some(5));
    assert_eq!(JsonNumber::PosInt(u64::MAX).as_i64(), None);
    assert_eq!(JsonNumber::PosInt(u64::MAX).as_u64(), Some(u64::MAX));
    assert_eq!(JsonNumber::PosInt(i64::MAX as u64).as_i64(), Some(i64::MAX));
    assert_eq!(JsonNumber::PosInt(i64::MAX as u64 + 1).as_i64(), None);
    assert_eq!(JsonNumber::NegInt(-5).as_i64(), Some(-5));
    assert_eq!(JsonNumber::NegInt(-5).as_u64(), None);
    assert_eq!(JsonNumber::NegInt(i64::MIN).as_i64(), Some(i64::MIN));
    assert_eq!(JsonNumber::Float("1.5".to_string()).as_i64(), None);
    assert_eq!(JsonNumber::PosInt(u64::MAX).as_integer(), Some(u64::MAX as i128));
    assert_eq!(JsonNumber::NegInt(i64::MIN).as_integer(), Some(i64::MIN as i128));
    assert_eq!(JsonNumber::Float("1.5".to_string()).as_integer(), None);
    assert_eq!(Json::integer(-7).as_integer(), Some(-7));
    assert_eq!(Json::Null.as_integer(), None);
    assert_eq!(JsonNumber::Float("1.5".to_string()).as_u64(), None);
    let value = sample();
    assert_eq!(value.get("value").unwrap().as_i64(), Some(150));
    assert_eq!(value.get("neg").unwrap().as_u64(), None);
    assert_eq!(value.get("name").unwrap().as_i64(), None);
    assert_eq!(value.get("name").unwrap().as_str(), Some("setSpeed"));
    assert_eq!(value.get("value").unwrap().as_str(), None);
}

#[test]
fn json_integer_picks_the_form_by_sign() {
    assert_eq!(Json::integer(0), Json::Number(JsonNumber::PosInt(0)));
    assert_eq!(Json::integer(60), Json::Number(JsonNumber::PosInt(60)));
    assert_eq!(Json::integer(-32603), Json::Number(JsonNumber::NegInt(-32603)));
}

#[test]
fn json_duplicate_is_equal_to_the_original() {
    let value = sample();
    assert_eq!(value.duplicate(), value);
    assert_eq!(duplicate_opt(&Some(sample())), Some(sample()));
    assert_eq!(duplicate_opt(&None), None);
    assert_eq!(JsonNumber::Float("2e9".to_string()).duplicate(), JsonNumber::Float("2e9".to_string()));
}

#[test]
fn json_builders_make_what_they_are_given() {
    assert_eq!(member("k", Json::Null), ("k".to_string(), Json::Null));
    assert_eq!(
        object_from(vec![member("k", Json::Bool(true))]),
        Json::Object(vec![("k".to_string(), Json::Bool(true))])
    );
    assert_eq!(array_from(vec![Json::text("a")]), Json::Array(vec![Json::Str("a".to_string())]));
}
