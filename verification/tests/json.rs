use codex_shuttle::json::{encode_json, parse_json, Json, JsonObject, Number};

fn json(text: &str) -> Json {
    parse_json(text.as_bytes()).unwrap()
}

#[test]
fn values_are_read_and_printed_by_serde_json() {
    let text = r#"{"a":[0,-1,18446744073709551615,1.5,1e+300,-0.0],"b":{"c":null,"d":true},"é":"\n\u0001\"\\"}"#;
    assert_eq!(encode_json(&json(text)), text);
    assert_eq!(encode_json(&json(text).copy()), text);
    assert!(parse_json(b"{\"a\":1").is_none());
    assert!(parse_json(b"\xff").is_none());
}

#[test]
fn printed_values_are_read_back() {
    let value = json(r#"{"z":[{"y":[1,2,{"x":"w"}]}],"a":-9223372036854775808}"#);
    assert!(json(&encode_json(&value)).same(&value));
}

#[test]
fn the_last_of_two_fields_counts() {
    let value = json(r#"{"a":1,"a":2}"#);
    assert!(value.get("a").unwrap().same(&Json::Number(Number::Unsigned(2))));
    let twice = Json::Object(JsonObject {
        fields: vec![
            ("a".to_owned(), Json::Bool(false)),
            ("a".to_owned(), Json::Bool(true)),
        ],
    });
    assert_eq!(encode_json(&twice), r#"{"a":true}"#);
    assert!(twice.get("a").unwrap().same(&Json::Bool(true)));
}

#[test]
fn equality_is_that_of_json_values() {
    assert!(json("0.0").same(&json("-0.0")));
    assert!(!json("0").same(&json("0.0")));
    assert!(json("2.50").same(&json("2.5")));
    assert!(Json::Number(Number::Signed(3)).same(&Json::Number(Number::Unsigned(3))));
    assert!(json(r#"{"a":1,"b":[2]}"#).same(&json(r#"{"b":[2],"a":1}"#)));
    assert!(!json(r#"{"a":1,"b":2}"#).same(&json(r#"{"a":1}"#)));
    assert!(!json(r#"{"a":1}"#).same(&json(r#"{"a":1,"b":2}"#)));
    assert!(!json("[1,2]").same(&json("[2,1]")));
    assert!(!json("\"1\"").same(&json("1")));
}

#[test]
fn fields_can_be_set_and_taken() {
    let mut object = JsonObject::new();
    object.insert("a", Json::Null);
    object.insert("b", Json::text("x"));
    object.insert("a", Json::Bool(true));
    assert!(object.take("b").unwrap().same(&Json::text("x")));
    assert!(object.take("b").is_none());
    assert_eq!(encode_json(&Json::Object(object)), r#"{"a":true}"#);
}
