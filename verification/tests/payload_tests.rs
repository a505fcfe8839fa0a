use datakit::json::JsonValue;
use datakit::payload::{
    from_pwm_headers, to_json_error_body, to_pwm_body, urlencoded_bytes_to_map, Payload,
    JSON_CONTENT_TYPE,
};

#[test]
fn to_bytes_json_string() {
    let raw = "my string";
    let encoded = "\"my string\"";

    let payload = Payload::Json(JsonValue::Str(raw.into()));

    let payload_to_string = |ct: Option<&str>| -> String {
        let bytes = payload.to_bytes(ct).expect("to_bytes() shouldn't error");
        String::from_utf8(bytes).expect("bytes should be valid UTF8")
    };

    assert_eq!(raw, payload_to_string(None));
    assert_eq!(encoded, payload_to_string(Some(JSON_CONTENT_TYPE)));
}

#[test]
fn raw_round_trip() {
    let bytes = b"some opaque body".to_vec();
    let p = Payload::Raw(bytes.clone());
    let encoded = p.to_bytes(Some("text/plain")).unwrap();
    let decoded = Payload::from_bytes(encoded, Some("text/plain")).unwrap();
    assert_eq!(decoded, p);

    let encoded2 = p.to_bytes(None).unwrap();
    let decoded2 = Payload::from_bytes(encoded2, None).unwrap();
    assert_eq!(decoded2, p);
}

#[test]
fn json_round_trip() {
    let text = br#"{"a":[1,2,"x"],"b":{"c":null,"d":true}}"#.to_vec();
    let p = Payload::from_bytes(text, Some(JSON_CONTENT_TYPE)).unwrap();
    assert!(matches!(p, Payload::Json(_)));
    let encoded = p.to_bytes(Some(JSON_CONTENT_TYPE)).unwrap();
    let reparsed = Payload::from_bytes(encoded, Some(JSON_CONTENT_TYPE)).unwrap();
    assert_eq!(reparsed, p);
}

#[test]
fn json_parse_failure_becomes_error_payload() {
    let text = br#"{"a": }"#.to_vec();
    let p = Payload::from_bytes(text, Some(JSON_CONTENT_TYPE)).unwrap();
    assert!(matches!(p, Payload::Error(_)));
}

#[test]
fn urlencoded_body_becomes_object() {
    let body = b"b=2&a=1&a=3".to_vec();
    let p = Payload::from_bytes(body, Some("application/x-www-form-urlencoded")).unwrap();
    match p {
        Payload::Json(JsonValue::Object(entries)) => {
            assert_eq!(entries.len(), 2);
            assert_eq!(entries[0].0, "a");
            assert_eq!(entries[0].1, JsonValue::Str("3".to_string()));
            assert_eq!(entries[1].0, "b");
            assert_eq!(entries[1].1, JsonValue::Str("2".to_string()));
        }
        other => panic!("expected an object payload, got {:?}", other),
    }
}

#[test]
fn urlencoded_map_last_value_wins() {
    let entries = urlencoded_bytes_to_map(b"k=1&k=2");
    assert_eq!(entries.len(), 1);
    assert_eq!(entries[0].0, "k");
    assert_eq!(entries[0].1, JsonValue::Str("2".to_string()));
}

#[test]
fn error_payload_refuses_encoding() {
    let p = Payload::Error("boom".to_string());
    assert_eq!(p.to_bytes(None), Err("boom".to_string()));
    assert_eq!(to_pwm_body(Some(&p)), Err("boom".to_string()));
}

#[test]
fn content_type_and_len() {
    assert_eq!(
        Payload::Json(JsonValue::Null).content_type(),
        Some("application/json")
    );
    assert_eq!(Payload::Raw(vec![1, 2, 3]).content_type(), None);
    assert_eq!(Payload::Raw(vec![1, 2, 3]).len(), Some(3));
    assert_eq!(Payload::Json(JsonValue::Null).len(), None);
    assert_eq!(Payload::Error("ab".to_string()).len(), Some(2));
}

#[test]
fn headers_payload_groups_and_lowercases() {
    let p = from_pwm_headers(vec![
        ("X-One".to_string(), "a".to_string()),
        ("x-one".to_string(), "b".to_string()),
        ("Host".to_string(), "example.com".to_string()),
    ]);
    match &p {
        Payload::Json(JsonValue::Object(entries)) => {
            assert_eq!(entries.len(), 2);
            assert_eq!(entries[0].0, "host");
            assert_eq!(entries[0].1, JsonValue::Str("example.com".to_string()));
            assert_eq!(entries[1].0, "x-one");
            assert_eq!(
                entries[1].1,
                JsonValue::Array(vec![
                    JsonValue::Str("a".to_string()),
                    JsonValue::Str("b".to_string())
                ])
            );
        }
        other => panic!("expected an object payload, got {:?}", other),
    }

    let pairs = p.to_pwm_headers();
    assert_eq!(
        pairs,
        vec![
            ("host".to_string(), "example.com".to_string()),
            ("x-one".to_string(), "a".to_string()),
            ("x-one".to_string(), "b".to_string()),
        ]
    );
}

#[test]
fn query_rendering() {
    let p = Payload::Json(JsonValue::Object(vec![
        ("a".to_string(), JsonValue::Str("1 2".to_string())),
        ("b".to_string(), JsonValue::Null),
        (
            "c".to_string(),
            JsonValue::Array(vec![
                JsonValue::Str("x".to_string()),
                JsonValue::Number("7".to_string()),
            ]),
        ),
    ]));
    assert_eq!(p.to_pwm_query(), "a=1+2&b&c=x&c=7");

    let raw = Payload::Raw(b"a b".to_vec());
    assert_eq!(raw.to_pwm_query(), "a+b");

    let err = Payload::Error("e".to_string());
    assert_eq!(err.to_pwm_query(), "");
}

#[test]
fn default_error_body() {
    assert_eq!(
        to_json_error_body("An unexpected error ocurred", None),
        "{\"message\":\"An unexpected error ocurred\"}"
    );
    assert_eq!(
        to_json_error_body("An unexpected error ocurred", Some(b"req-1".to_vec())),
        "{\"message\":\"An unexpected error ocurred\",\"request_id\":\"req-1\"}"
    );
}
