use datakit::config::{standard_implicits, Config};
use datakit::data::{Data, State};
use datakit::dependency_graph::{find, DependencyGraph};
use datakit::json::JsonValue;
use datakit::payload::Payload;

fn names(list: &[&str]) -> Vec<String> {
    list.iter().map(|s| s.to_string()).collect()
}

fn two_node_graph() -> DependencyGraph {
    let node_names = names(&["a", "b"]);
    let input_names = vec![names(&[]), names(&["in"])];
    let output_names = vec![names(&["out"]), names(&[])];
    let mut g = DependencyGraph::new(node_names, input_names, output_names);
    g.add("a", "out", "b", "in").unwrap();
    g
}

#[test]
fn find_locates_ports() {
    let node_names = names(&["a", "b"]);
    let port_names = vec![names(&["x", "y"]), names(&["z"])];
    assert_eq!(find("a", "y", &node_names, &port_names), (0, 1));
    assert_eq!(find("b", "z", &node_names, &port_names), (1, 0));
}

#[test]
fn graph_queries() {
    let g = two_node_graph();
    assert_eq!(g.number_of_nodes(), 2);
    assert_eq!(g.number_of_outputs(0), 1);
    assert_eq!(g.number_of_inputs(1), 1);
    assert_eq!(g.get_node_name(0), Some("a"));
    assert_eq!(g.get_node_name(2), None);
    assert!(g.has_dependents(0, 0));
    assert!(g.has_providers(1, 0));
    assert_eq!(g.get_provider(1, 0), Some((0, 0)));
    assert_eq!(g.each_input(1), &vec![Some((0, 0))]);
    assert_eq!(g.each_output(0), &vec![vec![(1, 0)]]);
}

#[test]
fn add_rejects_second_provider() {
    let node_names = names(&["a", "b", "c"]);
    let input_names = vec![names(&[]), names(&[]), names(&["in"])];
    let output_names = vec![names(&["out"]), names(&["out"]), names(&[])];
    let mut g = DependencyGraph::new(node_names, input_names, output_names);
    g.add("a", "out", "c", "in").unwrap();
    let err = g.add("b", "out", "c", "in").unwrap_err();
    assert_eq!(err, "c.in is already connected to a.out");
    assert!(err.contains("is already connected to"));
}

#[test]
fn fill_port_single_assignment() {
    let g = two_node_graph();
    let mut data = Data::new(&g);
    let x = Payload::Raw(b"x".to_vec());
    let y = Payload::Raw(b"y".to_vec());
    data.fill_port(&g, 0, 0, x).unwrap();
    let err = data.fill_port(&g, 0, 0, y).unwrap_err();
    assert_eq!(err, "cannot overwrite a payload");
}

#[test]
fn fill_port_refuses_waiting_node() {
    let g = two_node_graph();
    let mut data = Data::new(&g);
    data.set(0, State::Waiting(9));
    let err = data.fill_port(&g, 0, 0, Payload::json_null()).unwrap_err();
    assert_eq!(err, "cannot force payload on a waiting node");
}

#[test]
fn readiness_follows_providers() {
    let g = two_node_graph();
    let mut data = Data::new(&g);

    // b's input is linked but its provider holds nothing yet
    assert!(data.get_inputs_for(&g, 1, None).is_none());

    data.fill_port(&g, 0, 0, Payload::Raw(b"v".to_vec())).unwrap();
    let inputs = data.get_inputs_for(&g, 1, None).expect("b should be ready");
    assert_eq!(inputs.len(), 1);
    assert_eq!(inputs[0], Some(&Payload::Raw(b"v".to_vec())));

    // once b is terminal it never triggers again
    data.set(1, State::Done(vec![]));
    assert!(data.get_inputs_for(&g, 1, None).is_none());
    assert!(data.get_inputs_for(&g, 1, Some(3)).is_none());
}

#[test]
fn waiting_node_triggers_only_on_its_token() {
    let g = two_node_graph();
    let mut data = Data::new(&g);
    data.fill_port(&g, 0, 0, Payload::Raw(b"v".to_vec())).unwrap();
    data.set(1, State::Waiting(7));
    assert!(data.get_inputs_for(&g, 1, None).is_none());
    assert!(data.get_inputs_for(&g, 1, Some(8)).is_none());
    assert!(data.get_inputs_for(&g, 1, Some(7)).is_some());
}

#[test]
fn failed_provider_blocks_readiness() {
    let g = two_node_graph();
    let mut data = Data::new(&g);
    data.set(0, State::Fail(vec![Some(Payload::Error("e".to_string()))]));
    // a failed provider never satisfies a dependent input
    assert!(data.get_inputs_for(&g, 1, None).is_none());
    // but fetch_port still exposes the failure payload
    let fetched = data.fetch_port(&g, 1, 0);
    assert_eq!(fetched, Some(&Payload::Error("e".to_string())));
}

fn chain_config() -> Config {
    let cfg = br#"{
        "nodes": [
            { "name": "jq1", "type": "jq", "input": "request.headers" },
            { "name": "call1", "type": "call", "input": "jq1",
              "output": "response.body", "url": "http://example.com" }
        ]
    }"#;
    Config::new(cfg.to_vec(), &standard_implicits()).unwrap()
}

#[test]
fn linear_chain_schedules_in_order() {
    let config = chain_config();
    let g = config.get_graph();
    let jq1 = 4;
    let call1 = 5;
    let mut data = Data::new(g);

    // nothing is ready before the request headers arrive
    assert!(data.get_inputs_for(g, jq1, None).is_none());
    assert!(data.get_inputs_for(g, call1, None).is_none());

    // request headers arrive: exactly jq1 becomes ready
    let headers = Payload::Json(JsonValue::Object(vec![(
        "host".to_string(),
        JsonValue::Str("example.com".to_string()),
    )]));
    data.fill_port(g, 0, 1, headers.clone()).unwrap();
    let inputs = data.get_inputs_for(g, jq1, None).expect("jq1 ready");
    assert_eq!(inputs, vec![Some(&headers)]);
    assert!(data.get_inputs_for(g, call1, None).is_none());

    // jq1 finishes: call1 becomes ready and sees jq1's payload
    let jq_out = Payload::Json(JsonValue::Object(vec![(
        "x-bar".to_string(),
        JsonValue::Str("v".to_string()),
    )]));
    data.set(jq1, State::Done(vec![Some(jq_out.clone())]));
    assert!(data.get_inputs_for(g, jq1, None).is_none());
    let call_inputs = data.get_inputs_for(g, call1, None).expect("call1 ready");
    assert_eq!(call_inputs[0], Some(&jq_out));

    // call1 waits on its token; only that token resumes it
    data.set(call1, State::Waiting(42));
    assert!(data.get_inputs_for(g, call1, None).is_none());
    assert!(data.get_inputs_for(g, call1, Some(41)).is_none());
    assert!(data.get_inputs_for(g, call1, Some(42)).is_some());

    // the completed call's body flows to the response envelope
    let body = Payload::Raw(b"the final body".to_vec());
    data.set(call1, State::Done(vec![Some(body.clone()), None]));
    let response_body = data.fetch_port(g, 3, 0);
    assert_eq!(response_body, Some(&body));
}

#[test]
fn fan_out_to_two_consumers() {
    let cfg = br#"{
        "nodes": [
            { "name": "src", "type": "jq", "input": "request.headers" },
            { "name": "left", "type": "jq", "inputs": { "a": "src" } },
            { "name": "right", "type": "jq", "inputs": { "a": "src" } }
        ]
    }"#;
    let config = Config::new(cfg.to_vec(), &standard_implicits()).unwrap();
    let g = config.get_graph();
    let src = 4;
    let left = 5;
    let right = 6;
    let mut data = Data::new(g);

    data.fill_port(&g, 0, 1, Payload::json_null()).unwrap();
    let payload = Payload::Raw(b"shared".to_vec());
    data.set(src, State::Done(vec![Some(payload.clone())]));

    let left_inputs = data.get_inputs_for(g, left, None).expect("left ready");
    let right_inputs = data.get_inputs_for(g, right, None).expect("right ready");
    assert_eq!(left_inputs[0], Some(&payload));
    assert_eq!(right_inputs[0], Some(&payload));

    // each consumer runs exactly once
    data.set(left, State::Done(vec![None]));
    data.set(right, State::Done(vec![None]));
    assert!(data.get_inputs_for(g, left, None).is_none());
    assert!(data.get_inputs_for(g, right, None).is_none());
}

#[test]
fn already_connected_input_rejected() {
    let cfg = br#"{
        "nodes": [
            { "name": "a", "type": "jq", "output": "call1.body" },
            { "name": "b", "type": "jq", "output": "call1.body" },
            { "name": "call1", "type": "call", "url": "http://example.com" }
        ]
    }"#;
    let err = Config::new(cfg.to_vec(), &standard_implicits()).unwrap_err();
    assert!(err.contains("is already connected to"), "got: {err}");
}

#[test]
fn readiness_is_monotonic() {
    // c reads one port of a; further payloads appearing upstream leave c ready
    let node_names = names(&["a", "b", "c"]);
    let input_names = vec![names(&[]), names(&[]), names(&["x", "y"])];
    let output_names = vec![names(&["o1", "o2"]), names(&["o"]), names(&[])];
    let mut g = DependencyGraph::new(node_names, input_names, output_names);
    g.add("a", "o1", "c", "x").unwrap();
    g.add("b", "o", "c", "y").unwrap();

    let mut data = Data::new(&g);
    data.fill_port(&g, 0, 0, Payload::Raw(b"p".to_vec())).unwrap();
    data.fill_port(&g, 1, 0, Payload::Raw(b"q".to_vec())).unwrap();
    assert!(data.get_inputs_for(&g, 2, None).is_some());

    // another payload lands on a's second output port: c stays ready and
    // observes the same inputs
    data.fill_port(&g, 0, 1, Payload::Raw(b"r".to_vec())).unwrap();
    let inputs = data.get_inputs_for(&g, 2, None).expect("still ready");
    assert_eq!(inputs[0], Some(&Payload::Raw(b"p".to_vec())));
    assert_eq!(inputs[1], Some(&Payload::Raw(b"q".to_vec())));
}
