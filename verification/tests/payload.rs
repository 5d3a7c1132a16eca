use shortform::{
    CreateExpression, ExpressionError, ExpressionProof, PrivateShortFormExpression,
    ShortFormExpression, ShortFormExpressionData, Timestamp,
};

fn a_proof() -> ExpressionProof {
    ExpressionProof { signature: "sig".to_string(), key: "key".to_string() }
}

fn request(data: &str) -> CreateExpression {
    CreateExpression {
        data: data.to_string(),
        author: "did:test:alice".to_string(),
        timestamp: Timestamp::new(42, 7),
        proof: a_proof(),
    }
}

#[test]
fn parses_a_plain_payload() {
    let data = ShortFormExpressionData::try_parse(r#"{"background":[],"body":"hello"}"#).unwrap();
    assert_eq!(data.body, "hello");
    assert!(data.background.is_empty());
}

#[test]
fn parses_backgrounds_in_order() {
    let data = ShortFormExpressionData::try_parse(
        r#"{"body":"b","background":["one","two","three"]}"#,
    )
    .unwrap();
    assert_eq!(
        data,
        ShortFormExpressionData {
            background: vec!["one".to_string(), "two".to_string(), "three".to_string()],
            body: "b".to_string(),
        }
    );
}

#[test]
fn tolerates_members_it_does_not_know() {
    let data = ShortFormExpressionData::try_parse(
        r#"{"mood":{"deep":[1,2,{"x":null}]},"background":["bg"],"body":"hi","n":1.5}"#,
    )
    .unwrap();
    assert_eq!(data.body, "hi");
    assert_eq!(data.background, vec!["bg".to_string()]);
}

#[test]
fn decodes_escapes_in_strings() {
    let data = ShortFormExpressionData::try_parse(
        r#"{"background":["tab\there"],"body":"aA\n\"q\""}"#,
    )
    .unwrap();
    assert_eq!(data.body, "aA\n\"q\"");
    assert_eq!(data.background, vec!["tab\there".to_string()]);
}

#[test]
fn reads_the_two_values_as_an_array() {
    let data = ShortFormExpressionData::try_parse(r#"[["bg"],"hi"]"#).unwrap();
    assert_eq!(data.background, vec!["bg".to_string()]);
    assert_eq!(data.body, "hi");
}

#[test]
fn rejects_an_array_of_another_length() {
    assert_eq!(
        ShortFormExpressionData::try_parse(r#"[["bg"],"hi","more"]"#),
        Err(ExpressionError::Serialization)
    );
    assert_eq!(
        ShortFormExpressionData::try_parse(r#"[["bg"]]"#),
        Err(ExpressionError::Serialization)
    );
}

#[test]
fn rejects_a_missing_body() {
    assert_eq!(
        ShortFormExpressionData::try_parse(r#"{"background":[]}"#),
        Err(ExpressionError::Serialization)
    );
}

#[test]
fn rejects_a_missing_background() {
    assert_eq!(
        ShortFormExpressionData::try_parse(r#"{"body":"psst"}"#),
        Err(ExpressionError::Serialization)
    );
}

#[test]
fn rejects_members_of_the_wrong_type() {
    assert_eq!(
        ShortFormExpressionData::try_parse(r#"{"background":"no list","body":"x"}"#),
        Err(ExpressionError::Serialization)
    );
    assert_eq!(
        ShortFormExpressionData::try_parse(r#"{"background":[1,2],"body":"x"}"#),
        Err(ExpressionError::Serialization)
    );
    assert_eq!(
        ShortFormExpressionData::try_parse(r#"{"background":[],"body":null}"#),
        Err(ExpressionError::Serialization)
    );
    assert_eq!(
        ShortFormExpressionData::try_parse(r#"{"background":[],"body":17}"#),
        Err(ExpressionError::Serialization)
    );
}

#[test]
fn rejects_what_is_not_json() {
    for text in ["", "hello", "{", r#"{"background":[],"body":"x"} trailing"#, "null", "\"text\"", "12"] {
        assert_eq!(
            ShortFormExpressionData::try_parse(text),
            Err(ExpressionError::Serialization),
            "{:?}",
            text
        );
    }
}

#[test]
fn accepts_whitespace_around_the_payload() {
    let data =
        ShortFormExpressionData::try_parse(" \n {  \"body\" : \"x\" , \"background\" : [ ] } \t")
            .unwrap();
    assert_eq!(data.body, "x");
}

#[test]
fn parsing_gives_back_what_was_serialized() {
    let contents = [
        (vec![], ""),
        (vec!["a"], "hello"),
        (vec!["with \"quotes\"", "back\\slash", "uni\u{1F600}code"], "line\nbreak\ttab"),
        (vec!["", ""], "{\"body\":\"nested\"}"),
    ];
    for (background, body) in contents {
        let background: Vec<String> = background.iter().map(|s| s.to_string()).collect();
        let mut object = serde_json::Map::new();
        object.insert(
            "background".to_string(),
            serde_json::Value::Array(
                background.iter().map(|s| serde_json::Value::String(s.clone())).collect(),
            ),
        );
        object.insert("body".to_string(), serde_json::Value::String(body.to_string()));
        let text = serde_json::to_string(&serde_json::Value::Object(object)).unwrap();
        let parsed = ShortFormExpressionData::try_parse(&text).unwrap();
        assert_eq!(parsed, ShortFormExpressionData { background, body: body.to_string() });
    }
}

#[test]
fn a_request_becomes_its_expression() {
    let expression =
        ShortFormExpression::try_from(request(r#"{"background":["x"],"body":"hello"}"#)).unwrap();
    assert_eq!(
        expression,
        ShortFormExpression {
            data: ShortFormExpressionData {
                background: vec!["x".to_string()],
                body: "hello".to_string()
            },
            author: "did:test:alice".to_string(),
            timestamp: Timestamp { secs: 42, nanos: 7 },
            proof: a_proof(),
        }
    );
}

#[test]
fn a_request_with_a_bad_payload_is_refused() {
    assert_eq!(
        ShortFormExpression::try_from(request(r#"{"body":"hello"}"#)),
        Err(ExpressionError::Serialization)
    );
}

#[test]
fn the_private_twin_keeps_every_field() {
    let public =
        ShortFormExpression::try_from(request(r#"{"background":["x","y"],"body":"hello"}"#))
            .unwrap();
    let private = PrivateShortFormExpression::from(public.clone());
    assert_eq!(private.data, public.data);
    assert_eq!(private.author, public.author);
    assert_eq!(private.timestamp, public.timestamp);
    assert_eq!(private.proof, public.proof);
}

#[test]
fn equality_of_expressions_goes_by_content() {
    let a = ShortFormExpression::try_from(request(r#"{"background":["x"],"body":"hello"}"#)).unwrap();
    let b = ShortFormExpression::try_from(request(r#"{"body":"hello","background":["x"]}"#)).unwrap();
    let c = ShortFormExpression::try_from(request(r#"{"body":"hello","background":["y"]}"#)).unwrap();
    let d = ShortFormExpression::try_from(request(r#"{"body":"hello","background":[]}"#)).unwrap();
    assert!(a.same(&b));
    assert!(!a.same(&c));
    assert!(!a.same(&d));
    assert!(a.same(&a.clone()));
}

#[test]
fn a_repeated_key_counts_once_with_its_last_value() {
    let data = ShortFormExpressionData::try_parse(
        r#"{"body":"first","background":["a"],"body":"last"}"#,
    )
    .unwrap();
    assert_eq!(data.body, "last");
    assert_eq!(data.background, vec!["a".to_string()]);
}

#[test]
fn keys_are_told_apart_exactly() {
    assert_eq!(
        ShortFormExpressionData::try_parse(r#"{"Body":"x","background":[]}"#),
        Err(ExpressionError::Serialization)
    );
    assert_eq!(
        ShortFormExpressionData::try_parse(r#"{"body ":"x","background":[]}"#),
        Err(ExpressionError::Serialization)
    );
    let data = ShortFormExpressionData::try_parse(
        r#"{"body":"x","background":[],"Body":"y","backgrounds":["z"]}"#,
    )
    .unwrap();
    assert_eq!(data.body, "x");
    assert!(data.background.is_empty());
}
