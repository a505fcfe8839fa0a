use datakit::config::{
    parse_node_port, parse_user_config, standard_implicits, Config, ImplicitNode, UserConfig,
    UserLink, UserNodeConfig, UserNodeDesc,
};
use datakit::json::{parse_config_json, JsonValue};

fn deserialize_user_config(cfg: &str) -> UserConfig {
    let v = parse_config_json(cfg.as_bytes()).unwrap();
    parse_user_config(&v).unwrap()
}

fn declare_implicits() -> Vec<ImplicitNode> {
    standard_implicits()
}

#[test]
fn deserialize_empty_nodes() {
    let uc = deserialize_user_config(
        r#"{
            "nodes": []
        }"#,
    );
    assert_eq!(
        uc,
        UserConfig {
            nodes: vec![],
            debug: false,
        }
    );
}

#[test]
fn deserialize_complete_example() {
    let uc = deserialize_user_config(
        r#"{
            "nodes": [
                {
                    "name": "jq1",
                    "type": "jq",
                    "input": "request.headers",
                    "jq": "{ \"x-bar\": $request_headers[\"x-foo\"] }"
                },
                {
                    "name": "mycall",
                    "type": "call",
                    "input": "jq1",
                    "url": "http://example.com"
                },
                {
                    "name": "jq2",
                    "type": "jq",
                    "inputs": {
                        "$mycall": "mycall",
                        "$request": "request.body"
                    },
                    "jq": "{ \"bee\": $mycall.bee, \"boo\": $request.boo }"
                }
            ]
        }"#,
    );
    assert_eq!(
        uc,
        UserConfig {
            nodes: vec![
                UserNodeConfig {
                    desc: UserNodeDesc {
                        node_type: "jq".to_string(),
                        name: "jq1".to_string(),
                    },
                    bt: vec![(
                        "jq".to_string(),
                        JsonValue::Str("{ \"x-bar\": $request_headers[\"x-foo\"] }".to_string())
                    )],
                    links: vec![UserLink::new(
                        Some("request".to_string()),
                        Some("headers".to_string()),
                        Some("jq1".to_string()),
                        None
                    )],
                    n_inputs: 1,
                    n_outputs: 0,
                    named_ins: vec![],
                    named_outs: vec![]
                },
                UserNodeConfig {
                    desc: UserNodeDesc {
                        node_type: "call".to_string(),
                        name: "mycall".to_string()
                    },
                    bt: vec![(
                        "url".to_string(),
                        JsonValue::Str("http://example.com".to_string())
                    )],
                    links: vec![UserLink::new(
                        Some("jq1".to_string()),
                        None,
                        Some("mycall".to_string()),
                        None
                    )],
                    n_inputs: 1,
                    n_outputs: 0,
                    named_ins: vec![],
                    named_outs: vec![]
                },
                UserNodeConfig {
                    desc: UserNodeDesc {
                        node_type: "jq".to_string(),
                        name: "jq2".to_string()
                    },
                    bt: vec![(
                        "jq".to_string(),
                        JsonValue::Str("{ \"bee\": $mycall.bee, \"boo\": $request.boo }".to_string())
                    )],
                    links: vec![
                        UserLink::new(
                            Some("mycall".to_string()),
                            None,
                            Some("jq2".to_string()),
                            Some("$mycall".to_string())
                        ),
                        UserLink::new(
                            Some("request".to_string()),
                            Some("body".to_string()),
                            Some("jq2".to_string()),
                            Some("$request".to_string())
                        )
                    ],
                    n_inputs: 2,
                    n_outputs: 0,
                    named_ins: vec!["$mycall".to_string(), "$request".to_string()],
                    named_outs: vec![]
                }
            ],
            debug: false
        }
    );
}

#[test]
fn test_parse_node_port() {
    let cases = vec![
        ("", (Some(""), None)),
        (" ", (Some(""), None)),
        (".", (Some(""), Some(""))),
        (". ", (Some(""), Some(""))),
        (" . ", (Some(""), Some(""))),
        (".foo", (Some(""), Some("foo"))),
        (".foo.bar", (Some(""), Some("foo.bar"))),
        ("..foo.bar", (Some(""), Some(".foo.bar"))),
        (". .foo.bar", (Some(""), Some(".foo.bar"))),
        ("f.bar", (Some("f"), Some("bar"))),
        ("foo", (Some("foo"), None)),
        ("foo.", (Some("foo"), Some(""))),
        ("foo.b", (Some("foo"), Some("b"))),
        ("foo.b  ", (Some("foo"), Some("b"))),
        ("foo.bar", (Some("foo"), Some("bar"))),
        ("foo  .  bar", (Some("foo"), Some("bar"))),
        ("foo..baz", (Some("foo"), Some(".baz"))),
        ("foo.bar.", (Some("foo"), Some("bar."))),
        ("foo.bar..", (Some("foo"), Some("bar.."))),
        ("foo.bar.baz", (Some("foo"), Some("bar.baz"))),
        ("foo.bar baz", (Some("foo"), Some("bar baz"))),
        ("foo bar.baz bla", (Some("foo bar"), Some("baz bla"))),
        ("  foo . bar.baz ", (Some("foo"), Some("bar.baz"))),
    ];
    for (node_port, pair) in cases {
        assert_eq!(
            parse_node_port(node_port.to_owned()),
            (pair.0.map(str::to_owned), pair.1.map(str::to_owned))
        );
    }
}

fn accept_config(cfg: &str) -> Config {
    let result = Config::new(cfg.as_bytes().to_vec(), &vec![]);

    result.unwrap()
}

fn reject_config_with(cfg: &str, message: &str) {
    let implicits = declare_implicits();

    let result = Config::new(cfg.as_bytes().to_vec(), &implicits);

    let err = result.unwrap_err();
    assert_eq!(err, message);
}

#[test]
fn config_no_json() {
    reject_config_with(
        "",
        "failed parsing configuration: EOF while parsing a JSON value.",
    )
}

#[test]
fn config_bad_json() {
    reject_config_with(
        "{",
        "failed parsing configuration: EOF while parsing an object.",
    )
}

#[test]
fn config_empty_json() {
    reject_config_with("{}", "failed parsing configuration: missing field `nodes`")
}

#[test]
fn config_empty_nodes() {
    accept_config(
        r#"{
            "nodes": []
        }"#,
    );
}

#[test]
fn config_missing_type() {
    reject_config_with(
        r#"{
            "nodes": [
                {
                    "name": "MY_NODE"
                }
            ]
        }"#,
        "failed parsing configuration: missing field `type`",
    )
}

#[test]
fn config_invalid_type() {
    reject_config_with(
        r#"{
            "nodes": [
                {
                    "name": "MY_NODE",
                    "type": "INVALID"
                }
            ]
        }"#,
        "failed checking configuration: in node `MY_NODE` of type `INVALID`: unknown node type",
    )
}

#[test]
fn config_invalid_name() {
    reject_config_with(
        r#"{
            "nodes": [
                {
                    "name": "response",
                    "type": "jq"
                }
            ]
        }"#,
        "failed checking configuration: in node `response` of type `jq`: cannot use reserved node name",
    )
}

#[test]
fn config_invalid_loop() {
    reject_config_with(
        r#"{
            "nodes": [
                {
                    "name": "MY_NODE",
                    "type": "jq",
                    "inputs": {
                        "input": "MY_NODE"
                    }
                }
            ]
        }"#,
        "failed checking configuration: in node `MY_NODE` of type `jq`: node cannot connect to itself",
    )
}

#[test]
fn convert_complete_example() {
    let uc = deserialize_user_config(
        r#"{
            "nodes": [
                {
                    "name": "jq1",
                    "type": "jq",
                    "input": "request.headers",
                    "jq": "{ \"x-bar\": $request_headers[\"x-foo\"] }"
                },
                {
                    "name": "mycall",
                    "type": "call",
                    "input": "jq1",
                    "url": "http://example.com"
                },
                {
                    "name": "jq2",
                    "type": "jq",
                    "inputs": {
                        "$mycall": "mycall",
                        "$request": "request.body"
                    },
                    "jq": "{ \"bee\": $mycall.bee, \"boo\": $request.boo }"
                }
            ]
        }"#,
    );

    let implicits = declare_implicits();

    let config = uc.into_config(&implicits).unwrap();
    assert!(!config.debug);
    assert_eq!(config.n_nodes, 7);
    assert_eq!(config.n_implicits, 4);

    let expected_names = [
        "request",
        "service_request",
        "service_response",
        "response",
        "jq1",
        "mycall",
        "jq2",
    ];
    let expected_types = ["implicit", "implicit", "implicit", "implicit", "jq", "call", "jq"];
    for (i, (name, node_type)) in expected_names.iter().zip(expected_types.iter()).enumerate() {
        assert_eq!(config.get_node_name(i), *name);
        assert_eq!(config.get_node_type(i), *node_type);
    }

    let input_lists: &[&[Option<(usize, usize)>]] = &[
        &[],
        &[None, None, None],
        &[],
        &[None, None],
        &[Some((0, 1))],
        &[Some((4, 0)), None, None],
        &[Some((5, 0)), Some((0, 0))],
    ];
    for (i, &input_list) in input_lists.iter().enumerate() {
        let computed = config.get_graph().each_input(i);
        assert_eq!(input_list.to_vec(), computed.clone());
    }

    let output_lists: &[&[&[(usize, usize)]]] = &[
        &[&[(6, 1)], &[(4, 0)], &[]],
        &[&[], &[]],
        &[&[], &[]],
        &[&[], &[]],
        &[&[(5, 0)]],
        &[&[(6, 0)], &[]],
        &[],
    ];
    for (i, &output_list) in output_lists.iter().enumerate() {
        let given: Vec<Vec<(usize, usize)>> =
            output_list.iter().map(|l| l.to_vec()).collect();
        let computed = config.get_graph().each_output(i);
        assert_eq!(given, computed.clone());
    }
}
