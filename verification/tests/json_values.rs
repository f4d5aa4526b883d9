use openai_responses::Json;

fn parse(text: &str) -> Json {
    Json::parse(text).unwrap()
}

fn value(text: &str) -> serde_json::Value {
    serde_json::from_str(text).unwrap()
}

#[test]
fn parse_reads_every_kind_of_value() {
    let text = r#"{"a":[null,true,12,-7,1.5,"x"],"b":{}}"#;
    let json = parse(text);
    assert_eq!(json.to_value(), value(text));
    assert_eq!(json.to_text(), text);
    assert_eq!(json.display(), text);
}

#[test]
fn parse_refuses_what_is_no_json() {
    assert!(Json::parse("{").is_err());
    assert!(Json::parse("").is_err());
    assert!(Json::parse("1 2").is_err());
}

#[test]
fn parse_follows_127_levels_and_no_more() {
    let deep = format!("{}{}", "[".repeat(127), "]".repeat(127));
    assert_eq!(parse(&deep).to_text(), deep);
    let deeper = format!("{}{}", "[".repeat(128), "]".repeat(128));
    assert!(Json::parse(&deeper).is_err());
}

#[test]
fn text_reads_back_as_the_value() {
    let json = Json::Object(vec![
        ("low".to_string(), Json::Signed(i64::MIN)),
        ("high".to_string(), Json::Unsigned(u64::MAX)),
        ("signed".to_string(), Json::Signed(5)),
        ("text".to_string(), Json::Text("a\"\\\n\u{0}\u{1F600}".to_string())),
        ("list".to_string(), Json::Array(vec![Json::Null, Json::Bool(false)])),
    ]);
    let back = parse(&json.to_text());
    assert_eq!(back.to_value(), json.to_value());
}

#[test]
fn the_later_entry_of_a_key_counts() {
    let json = Json::Object(vec![
        ("k".to_string(), Json::Unsigned(1)),
        ("k".to_string(), Json::Unsigned(2)),
    ]);
    assert_eq!(json.u64_at("k"), Some(2));
    assert_eq!(json.to_text(), r#"{"k":2}"#);
    assert_eq!(parse(r#"{"k":1,"k":2}"#).u64_at("k"), Some(2));
}

#[test]
fn accessors_tell_kinds_apart() {
    let json = parse(r#"{"s":"x","n":7,"neg":-7,"f":7.5,"a":[1,2],"z":null}"#);
    assert_eq!(json.str_at("s"), Some("x"));
    assert_eq!(json.str_at("n"), None);
    assert_eq!(json.u64_at("n"), Some(7));
    assert_eq!(json.u64_at("neg"), None);
    assert_eq!(json.u64_at("f"), None);
    assert_eq!(json.u64_at("s"), None);
    assert_eq!(json.array_at("a").unwrap().len(), 2);
    assert!(json.array_at("s").is_none());
    assert!(json.get("z").is_some());
    assert!(json.get("missing").is_none());
    assert!(parse("[1]").get("s").is_none());
    assert_eq!(Json::Signed(3).as_u64(), Some(3));
    assert_eq!(Json::Signed(-3).as_u64(), None);
    assert_eq!(Json::Number(serde_json::Number::from(9u64)).as_u64(), Some(9));
    assert_eq!(Json::Number(serde_json::Number::from(-9i64)).as_u64(), None);
}

#[test]
fn clone_is_the_same_value() {
    let json = parse(r#"{"a":[1,{"b":-2.5}],"c":"d"}"#);
    assert_eq!(json.clone().to_value(), json.to_value());
}

#[test]
fn values_pass_through_both_ways() {
    let v = value(r#"{"x":[1,-2,3.25,{"y":null}]}"#);
    assert_eq!(Json::from_value(v.clone()).to_value(), v);
}
