use std::collections::HashMap;

use datakit::data::{Input, Phase, State};
use datakit::engine::{engine_from_bytes, header_to_bool, Action};
use datakit::json::JsonValue;
use datakit::nodes::{Host, HandlebarsConfig, HandlebarsNode, PropertyConfig, PropertyNode};
use datakit::payload::{Payload, JSON_CONTENT_TYPE};

struct Mock {
    props: HashMap<Vec<String>, Vec<u8>>,
    request_headers: Vec<(String, String)>,
    request_header_map: HashMap<String, String>,
    response_headers: Vec<(String, String)>,
    response_header_map: HashMap<String, String>,
    request_body: Option<Vec<u8>>,
    response_body: Option<Vec<u8>>,
    sent_responses: Vec<(u32, Vec<(String, String)>, Option<Vec<u8>>)>,
    dispatched: Vec<(String, Vec<(String, String)>, Option<Vec<u8>>, u64)>,
    dispatch_answer: Result<u32, String>,
    call_response_headers: Vec<(String, String)>,
    call_response_body: Option<Vec<u8>>,
    call_response_header_map: HashMap<String, String>,
    set_request_headers_calls: usize,
    set_response_body_calls: usize,
    resumed: bool,
    observed_runs: Vec<(String, String, bool)>,
}

impl Mock {
    fn new() -> Self {
        Mock {
            props: HashMap::new(),
            request_headers: vec![],
            request_header_map: HashMap::new(),
            response_headers: vec![],
            response_header_map: HashMap::new(),
            request_body: None,
            response_body: None,
            sent_responses: vec![],
            dispatched: vec![],
            dispatch_answer: Ok(1),
            call_response_headers: vec![],
            call_response_body: None,
            call_response_header_map: HashMap::new(),
            set_request_headers_calls: 0,
            set_response_body_calls: 0,
            resumed: false,
            observed_runs: vec![],
        }
    }

    fn set(&mut self, name: &str, value: &str) {
        let path: Vec<String> = name.split('.').map(|s| s.to_string()).collect();
        self.props.insert(path, value.bytes().collect());
    }

    fn get(&self, name: &str) -> Option<String> {
        let path: Vec<String> = name.split('.').map(|s| s.to_string()).collect();
        self.props
            .get(&path)
            .cloned()
            .map(|value| String::from_utf8(value).unwrap())
    }
}

impl Host for Mock {
    fn dispatch_http_call(
        &mut self,
        upstream: &str,
        headers: Vec<(String, String)>,
        body: Option<Vec<u8>>,
        timeout_secs: u64,
    ) -> Result<u32, String> {
        self.dispatched
            .push((upstream.to_string(), headers, body, timeout_secs));
        self.dispatch_answer.clone()
    }

    fn get_http_call_response_headers(&self) -> Vec<(String, String)> {
        self.call_response_headers.clone()
    }

    fn get_http_call_response_body(&self) -> Option<Vec<u8>> {
        self.call_response_body.clone()
    }

    fn get_http_call_response_header(&self, name: &str) -> Option<String> {
        self.call_response_header_map.get(name).cloned()
    }

    fn get_property(&self, path: &Vec<String>) -> Option<Vec<u8>> {
        self.props.get(path).cloned()
    }

    fn set_property(&mut self, path: &Vec<String>, value: Option<Vec<u8>>) {
        match value {
            Some(bytes) => {
                self.props.insert(path.clone(), bytes);
            }
            None => {
                self.props.remove(path);
            }
        }
    }

    fn send_http_response(
        &mut self,
        status: u32,
        headers: Vec<(String, String)>,
        body: Option<Vec<u8>>,
    ) {
        self.sent_responses.push((status, headers, body));
    }

    fn get_http_request_headers(&self) -> Vec<(String, String)> {
        self.request_headers.clone()
    }

    fn get_http_request_header(&self, name: &str) -> Option<String> {
        self.request_header_map.get(name).cloned()
    }

    fn set_http_request_headers(&mut self, headers: Vec<(String, String)>) {
        self.set_request_headers_calls += 1;
        self.request_headers = headers;
    }

    fn set_http_request_header(&mut self, name: &str, value: Option<String>) {
        match value {
            Some(v) => {
                self.request_header_map.insert(name.to_string(), v);
            }
            None => {
                self.request_header_map.remove(name);
            }
        }
    }

    fn get_http_request_body(&self) -> Option<Vec<u8>> {
        self.request_body.clone()
    }

    fn set_http_request_body(&mut self, body: Vec<u8>) {
        self.request_body = Some(body);
    }

    fn get_http_response_headers(&self) -> Vec<(String, String)> {
        self.response_headers.clone()
    }

    fn get_http_response_header(&self, name: &str) -> Option<String> {
        self.response_header_map.get(name).cloned()
    }

    fn set_http_response_headers(&mut self, headers: Vec<(String, String)>) {
        self.response_headers = headers;
    }

    fn set_http_response_header(&mut self, name: &str, value: Option<String>) {
        match value {
            Some(v) => {
                self.response_header_map.insert(name.to_string(), v);
            }
            None => {
                self.response_header_map.remove(name);
            }
        }
    }

    fn get_http_response_body(&self) -> Option<Vec<u8>> {
        self.response_body.clone()
    }

    fn set_http_response_body(&mut self, body: Vec<u8>) {
        self.set_response_body_calls += 1;
        self.response_body = Some(body);
    }

    fn resume_http_request(&mut self) {
        self.resumed = true;
    }

    fn observe_run(&mut self, name: &str, node_type: &str, _state: &State, resume: bool) {
        self.observed_runs
            .push((name.to_string(), node_type.to_string(), resume));
    }

    fn observe_set(&mut self, _name: &str, _state: &State) {}

    fn trace_json(&self) -> String {
        "[]".to_string()
    }

    fn log_warn(&self, _msg: &str) {}
}

fn node(name: &str) -> PropertyNode {
    PropertyNode {
        config: PropertyConfig {
            path: name.split('.').map(|s| s.to_string()).collect(),
            content_type: None,
        },
    }
}

fn node_ct(name: &str, ct: &str) -> PropertyNode {
    PropertyNode {
        config: PropertyConfig {
            path: name.split('.').map(|s| s.to_string()).collect(),
            content_type: Some(ct.to_string()),
        },
    }
}

fn empty_input<'a>() -> Input<'a> {
    Input {
        data: vec![],
        phase: Phase::HttpRequestHeaders,
    }
}

fn input_of(payload: &Payload) -> Input<'_> {
    Input {
        data: vec![Some(payload)],
        phase: Phase::HttpRequestHeaders,
    }
}

fn done_null() -> State {
    State::Done(vec![Some(Payload::json_null())])
}

#[test]
fn get_property() {
    let property = "test.property";
    let value = "test.value";

    let mut ctx = Mock::new();
    ctx.set(property, value);

    let n = node(property);

    let state = n.run(&mut ctx, &empty_input());
    assert_eq!(State::Done(vec![Some(Payload::Raw(value.into()))]), state);
}

#[test]
fn get_property_not_exists() {
    let mut ctx = Mock::new();

    let n = node("test.property");

    let state = n.run(&mut ctx, &empty_input());
    assert_eq!(State::Done(vec![Some(Payload::json_null())]), state);
}

#[test]
fn get_property_json() {
    let property = "test.property";
    let value = r#"{ "a": 1 }"#;

    let payload = Payload::from_bytes(value.into(), Some(JSON_CONTENT_TYPE)).expect("unreachable");

    let mut ctx = Mock::new();
    ctx.set(property, value);

    let n = node_ct(property, JSON_CONTENT_TYPE);

    let state = n.run(&mut ctx, &empty_input());
    assert_eq!(State::Done(vec![Some(payload)]), state);
}

#[test]
fn get_property_json_invalid() {
    let property = "test.property";
    let value = r#"{ "a": }"#;

    let mut ctx = Mock::new();
    ctx.set(property, value);

    let n = node_ct(property, JSON_CONTENT_TYPE);

    let state = n.run(&mut ctx, &empty_input());
    let State::Done(payloads) = state else {
        panic!("expected State::Done(...)");
    };

    assert_eq!(1, payloads.len());

    let Some(&Some(Payload::Error(_))) = payloads.first() else {
        panic!("expected Payload::Error(...)");
    };
}

#[test]
fn set_property() {
    let property = "test.property";
    let value = "test.value";
    let mut ctx = Mock::new();

    let n = node(property);
    let payload = Payload::Raw(value.into());
    let input = input_of(&payload);

    let state = n.run(&mut ctx, &input);
    assert_eq!(done_null(), state);
    assert_eq!(Some(value.into()), ctx.get(property));
}

#[test]
fn set_property_from_json() {
    let property = "test.property";

    let mut ctx = Mock::new();

    let json = JsonValue::Object(vec![("a".to_string(), JsonValue::Number("1".to_string()))]);

    let payload = Payload::Json(json);

    let n = node(property);
    let state = n.run(&mut ctx, &input_of(&payload));
    assert_eq!(done_null(), state);
}

#[test]
fn set_property_from_json_invalid() {
    let property = "test.property";
    let value = r#"{ "a": }"#;

    let mut ctx = Mock::new();
    ctx.set(property, value);

    let n = node_ct(property, JSON_CONTENT_TYPE);

    let state = n.run(&mut ctx, &empty_input());
    let State::Done(payloads) = state else {
        panic!("expected State::Done(...)");
    };

    assert_eq!(1, payloads.len());

    let Some(&Some(Payload::Error(_))) = payloads.first() else {
        panic!("expected Payload::Error(...)");
    };
}

#[test]
fn set_property_from_json_plain() {
    let property = "test.property";

    let mut ctx = Mock::new();

    let json = JsonValue::Object(vec![("a".to_string(), JsonValue::Number("1".to_string()))]);

    let encoded = "{\"a\":1}".to_string();

    let json = Payload::Json(json);

    let n = node_ct(property, "text/plain");
    let state = n.run(&mut ctx, &input_of(&json));
    assert_eq!(done_null(), state);
    assert_eq!(Some(encoded), ctx.get(property));
}

#[test]
fn set_property_from_json_string_no_content_type() {
    let property = "test.property";

    let mut ctx = Mock::new();

    let raw = "my string".to_string();
    let json = JsonValue::Str(raw.clone());

    let payload = Payload::Json(json);

    let n = node(property);
    let state = n.run(&mut ctx, &input_of(&payload));

    assert_eq!(done_null(), state);
    assert_eq!(Some(raw), ctx.get(property));
}

#[test]
fn set_property_from_json_string_plain_content_type() {
    let property = "test.property";

    let mut ctx = Mock::new();

    let raw = "my string".to_string();
    let json = JsonValue::Str(raw.clone());

    let payload = Payload::Json(json);

    let n = node_ct(property, "text/plain");
    let state = n.run(&mut ctx, &input_of(&payload));

    assert_eq!(done_null(), state);
    assert_eq!(Some(raw), ctx.get(property));
}

#[test]
fn set_property_from_json_string_json_content_type() {
    let property = "test.property";

    let mut ctx = Mock::new();

    let raw = "my string".to_string();
    let json = JsonValue::Str(raw.clone());
    let encoded = "\"my string\"".to_string();

    let payload = Payload::Json(json);

    let n = node_ct(property, JSON_CONTENT_TYPE);
    let state = n.run(&mut ctx, &input_of(&payload));

    assert_eq!(done_null(), state);
    assert_eq!(Some(encoded), ctx.get(property));
}

#[test]
fn update_property() {
    let property = "test.property";
    let old = "old value";
    let new = "new value";

    let mut ctx = Mock::new();
    ctx.set(property, old);

    let payload = Payload::Raw(new.into());

    let n = node(property);
    let input = input_of(&payload);

    let state = n.run(&mut ctx, &input);
    assert_eq!(done_null(), state);
    assert_eq!(Some(new.into()), ctx.get(property));
}

#[test]
fn set_property_from_error() {
    let property = "test.property";
    let err = "my error";

    let mut ctx = Mock::new();

    let payload = Payload::Error(err.into());

    let n = node(property);
    let state = n.run(&mut ctx, &input_of(&payload));

    assert_eq!(State::Fail(vec![Some(payload)]), state);
}

#[test]
fn handlebars_renders_template() {
    let n = HandlebarsNode {
        config: HandlebarsConfig {
            template: "Hello {{who}}!".to_string(),
            content_type: "text/plain".to_string(),
            inputs: vec!["who".to_string()],
        },
    };
    let payload = Payload::Json(JsonValue::Str("world".to_string()));
    let input = Input {
        data: vec![Some(&payload)],
        phase: Phase::HttpRequestHeaders,
    };
    let mut ctx = Mock::new();
    let state = n.run(&mut ctx, &input);
    assert_eq!(
        state,
        State::Done(vec![Some(Payload::Raw(b"Hello world!".to_vec()))])
    );
}

#[test]
fn truthy_header_values() {
    assert!(!header_to_bool(&None));
    assert!(!header_to_bool(&Some("off".to_string())));
    assert!(!header_to_bool(&Some("false".to_string())));
    assert!(!header_to_bool(&Some("0".to_string())));
    assert!(header_to_bool(&Some("on".to_string())));
    assert!(header_to_bool(&Some("1".to_string())));
    assert!(header_to_bool(&Some("".to_string())));
}

#[test]
fn empty_graph_passes_request_through() {
    let mut engine = engine_from_bytes(br#"{"nodes":[]}"#.to_vec()).unwrap();
    let mut ctx = Mock::new();
    ctx.request_headers = vec![("host".to_string(), "example.com".to_string())];

    assert_eq!(engine.on_http_request_headers(&mut ctx), Action::Continue);
    assert_eq!(engine.on_http_request_body(&mut ctx, true), Action::Continue);
    assert_eq!(engine.on_http_response_headers(&mut ctx), Action::Continue);
    assert_eq!(engine.on_http_response_body(&mut ctx, true), Action::Continue);

    // no node ran and nothing was written back
    assert!(engine.data.states.iter().all(Option::is_none));
    assert_eq!(ctx.set_request_headers_calls, 0);
    assert_eq!(ctx.set_response_body_calls, 0);
    assert!(ctx.sent_responses.is_empty());
    assert!(ctx.dispatched.is_empty());
}

#[test]
fn failing_node_sends_default_response_and_blocks_downstream() {
    // the call's URL parses but has no host, so its run fails
    let cfg = br#"{
        "nodes": [
            { "name": "c", "type": "call", "input": "request.headers", "url": "data:,x" },
            { "name": "d", "type": "jq", "inputs": { "a": "c" } }
        ]
    }"#;
    let mut engine = engine_from_bytes(cfg.to_vec()).unwrap();
    let mut ctx = Mock::new();
    ctx.request_headers = vec![("host".to_string(), "example.com".to_string())];
    ctx.set("ngx.kong_request_id", "req-abc");

    engine.on_http_request_headers(&mut ctx);

    assert!(engine.failed);
    assert_eq!(ctx.sent_responses.len(), 1);
    let (status, headers, body) = &ctx.sent_responses[0];
    assert_eq!(*status, 500);
    assert!(headers.contains(&("Content-Type".to_string(), "application/json".to_string())));
    let body = String::from_utf8(body.clone().unwrap()).unwrap();
    assert!(body.contains("An unexpected error ocurred"), "got: {body}");
    assert!(body.contains("req-abc"), "got: {body}");

    // the downstream consumer never ran
    assert!(engine.data.states[5].is_none());
}

#[test]
fn call_node_waits_and_resumes() {
    let cfg = br#"{
        "nodes": [
            { "name": "call1", "type": "call", "input": "request.headers",
              "output": "response.body", "url": "http://example.com/path" }
        ]
    }"#;
    let mut engine = engine_from_bytes(cfg.to_vec()).unwrap();
    let mut ctx = Mock::new();
    ctx.request_headers = vec![("host".to_string(), "example.com".to_string())];
    ctx.dispatch_answer = Ok(7);
    ctx.call_response_body = Some(b"the upstream answer".to_vec());
    ctx.call_response_header_map
        .insert("Content-Type".to_string(), "text/plain".to_string());

    let action = engine.on_http_request_headers(&mut ctx);
    assert_eq!(action, Action::Pause);
    assert_eq!(ctx.dispatched.len(), 1);
    assert_eq!(ctx.dispatched[0].0, "example.com");
    assert!(ctx.dispatched[0]
        .1
        .contains(&(":path".to_string(), "/path".to_string())));

    engine.on_http_call_response(&mut ctx, 7);
    assert!(ctx.resumed);

    // the completed call's body reaches the response envelope
    engine.on_http_response_headers(&mut ctx);
    engine.on_http_response_body(&mut ctx, true);
    assert_eq!(ctx.response_body, Some(b"the upstream answer".to_vec()));
}
