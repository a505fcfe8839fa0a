//! The node types the engine knows, their port declarations, their
//! configuration objects, and the node implementations themselves.
//!
//! Node implementations are specified to the scheduler only by the states
//! they return; what they do against the host goes through the `Host` trait,
//! which the embedder implements.

use crate::data::{Input, State};
use crate::json::JsonValue;
use crate::payload::{to_pwm_body, Payload};
use crate::util::str_eq;
use vstd::prelude::*;
use vstd::string::StrSliceExecFns;
use vstd::string::StringExecFns;

verus! {

/// The port declaration of a node type: fixed default ports, and whether
/// the user may declare further ports.
#[derive(Debug)]
pub struct PortConfig {
    pub defaults: Option<Vec<String>>,
    pub user_defined_ports: bool,
}

/// The first index at which `names` holds `name`.
pub open spec fn name_index(names: Seq<String>, name: Seq<char>) -> Option<int> {
    crate::dependency_graph::str_position(names, name)
}

/// `list` extended with each given name not already present, in order.
pub open spec fn add_absent(list: Seq<String>, given: Seq<String>) -> Seq<String>
    decreases given.len(),
{
    if given.len() == 0 {
        list
    } else {
        let prev = add_absent(list, given.drop_last());
        if name_index(prev, given.last()@) is Some {
            prev
        } else {
            prev.push(given.last())
        }
    }
}

/// Whether `names` holds a string reading `name`.
pub fn contains_name(names: &Vec<String>, name: &str) -> (r: bool)
    ensures
        r == (name_index(names@, name@) is Some),
{
    match crate::dependency_graph::position_of(names, name) {
        Some(_) => true,
        None => false,
    }
}

impl PortConfig {
    /// An owned list of the given names.
    pub fn names(list: &[&str]) -> (r: Option<Vec<String>>)
        ensures
            r matches Some(v) && v@.len() == list@.len() && (forall|i: int|
                0 <= i < list@.len() ==> #[trigger] v@[i]@ == list@[i]@),
    {
        let mut v: Vec<String> = Vec::new();
        let n = list.len();
        for i in 0..n
            invariant
                n == list@.len(),
                v@.len() == i,
                forall|k: int| 0 <= k < i ==> #[trigger] v@[k]@ == list@[k]@,
        {
            v.push(list[i].to_owned());
        }
        Some(v)
    }

    /// Combines the defaults and the user-given ports into the final ordered
    /// list: the defaults first, then each new user port when the type
    /// admits user-defined ports.
    pub fn into_port_list(self, given: &Vec<String>) -> (r: Vec<String>)
        ensures
            ({
                let base = match self.defaults {
                    Some(d) => d@,
                    None => Seq::<String>::empty(),
                };
                if self.user_defined_ports {
                    r@ == add_absent(base, given@)
                } else {
                    r@ == base
                }
            }),
    {
        let mut list = match self.defaults {
            Some(d) => d,
            None => Vec::new(),
        };
        if self.user_defined_ports {
            let ghost base = list@;
            let n = given.len();
            for i in 0..n
                invariant
                    n == given@.len(),
                    list@ == add_absent(base, given@.take(i as int)),
            {
                proof {
                    assert(given@.take(i + 1).drop_last() =~= given@.take(i as int));
                    assert(given@.take(i + 1).last() == given@[i as int]);
                }
                if !contains_name(&list, given[i].as_str()) {
                    list.push(given[i].clone());
                }
            }
            proof {
                assert(given@.take(n as int) =~= given@);
            }
        }
        list
    }
}

/// A default link a node type asks for when the user declared none.
pub struct NodeDefaultLink {
    pub this_port: String,
    pub other_node: String,
    pub other_port: String,
}

/// The registered node types.
#[derive(PartialEq, Eq, Structural, Clone, Copy, Debug)]
pub enum NodeType {
    Implicit,
    Call,
    Exit,
    Handlebars,
    Property,
    Jq,
}

/// The type a tag names, if registered.
pub open spec fn spec_node_type_of(name: Seq<char>) -> Option<NodeType> {
    if name == "implicit"@ {
        Some(NodeType::Implicit)
    } else if name == "call"@ {
        Some(NodeType::Call)
    } else if name == "exit"@ {
        Some(NodeType::Exit)
    } else if name == "handlebars"@ {
        Some(NodeType::Handlebars)
    } else if name == "property"@ {
        Some(NodeType::Property)
    } else if name == "jq"@ {
        Some(NodeType::Jq)
    } else {
        None
    }
}

pub fn node_type_of(name: &str) -> (r: Option<NodeType>)
    ensures
        r == spec_node_type_of(name@),
{
    if str_eq(name, "implicit") {
        Some(NodeType::Implicit)
    } else if str_eq(name, "call") {
        Some(NodeType::Call)
    } else if str_eq(name, "exit") {
        Some(NodeType::Exit)
    } else if str_eq(name, "handlebars") {
        Some(NodeType::Handlebars)
    } else if str_eq(name, "property") {
        Some(NodeType::Property)
    } else if str_eq(name, "jq") {
        Some(NodeType::Jq)
    } else {
        None
    }
}

/// Whether a type tag is registered.
pub fn is_valid_type(node_type: &str) -> (r: bool)
    ensures
        r == (spec_node_type_of(node_type@) is Some),
{
    match node_type_of(node_type) {
        Some(_) => true,
        None => false,
    }
}

/// The declared input ports of a type, as far as the registry knows it.
pub fn default_input_ports(node_type: &str) -> (r: Option<PortConfig>)
    ensures
        (r is Some) == (spec_node_type_of(node_type@) is Some),
{
    match node_type_of(node_type) {
        Some(NodeType::Implicit) => Some(
            PortConfig { defaults: None, user_defined_ports: false },
        ),
        Some(NodeType::Call) => Some(
            PortConfig {
                defaults: PortConfig::names(&["body", "headers", "query"]),
                user_defined_ports: false,
            },
        ),
        Some(NodeType::Exit) => Some(
            PortConfig {
                defaults: PortConfig::names(&["body", "headers"]),
                user_defined_ports: false,
            },
        ),
        Some(NodeType::Handlebars) => Some(
            PortConfig { defaults: None, user_defined_ports: true },
        ),
        Some(NodeType::Property) => Some(
            PortConfig { defaults: PortConfig::names(&["value"]), user_defined_ports: false },
        ),
        Some(NodeType::Jq) => Some(PortConfig { defaults: None, user_defined_ports: true }),
        None => None,
    }
}

/// The declared output ports of a type, as far as the registry knows it.
pub fn default_output_ports(node_type: &str) -> (r: Option<PortConfig>)
    ensures
        (r is Some) == (spec_node_type_of(node_type@) is Some),
{
    match node_type_of(node_type) {
        Some(NodeType::Implicit) => Some(
            PortConfig {
                defaults: PortConfig::names(&["body", "headers"]),
                user_defined_ports: false,
            },
        ),
        Some(NodeType::Call) => Some(
            PortConfig {
                defaults: PortConfig::names(&["body", "headers"]),
                user_defined_ports: false,
            },
        ),
        Some(NodeType::Exit) => Some(
            PortConfig {
                defaults: PortConfig::names(&["body", "headers"]),
                user_defined_ports: false,
            },
        ),
        Some(NodeType::Handlebars) => Some(
            PortConfig { defaults: PortConfig::names(&["output"]), user_defined_ports: false },
        ),
        Some(NodeType::Property) => Some(
            PortConfig { defaults: PortConfig::names(&["value"]), user_defined_ports: false },
        ),
        Some(NodeType::Jq) => Some(PortConfig { defaults: None, user_defined_ports: true }),
        None => None,
    }
}

/// The first value stored under `key`, if any.
pub open spec fn bag_lookup(bt: Seq<(String, JsonValue)>, key: Seq<char>) -> Option<JsonValue> {
    if exists|i: int| 0 <= i < bt.len() && bt[i].0@ == key {
        let i = choose|i: int|
            0 <= i < bt.len() && bt[i].0@ == key && (forall|k: int| 0 <= k < i ==> bt[k].0@ != key);
        Some(bt[i].1)
    } else {
        None
    }
}

/// Reads a string attribute from a node's property bag.
pub fn get_str_value(bt: &Vec<(String, JsonValue)>, key: &str) -> (r: Option<String>)
    ensures
        match bag_lookup(bt@, key@) {
            Some(JsonValue::Str(s)) => r == Some(s),
            _ => r is None,
        },
{
    let n = bt.len();
    for i in 0..n
        invariant
            n == bt@.len(),
            forall|k: int| 0 <= k < i ==> bt@[k].0@ != key@,
    {
        if str_eq(bt[i].0.as_str(), key) {
            return match &bt[i].1 {
                JsonValue::Str(s) => Some(s.clone()),
                _ => None,
            };
        }
    }
    None
}

/// Reads an unsigned integer attribute from a node's property bag.
pub fn get_u32_value(bt: &Vec<(String, JsonValue)>, key: &str) -> (r: Option<u32>)
    ensures
        match bag_lookup(bt@, key@) {
            Some(JsonValue::Number(n)) => r == crate::util::parse_u32_spec(n@),
            _ => r is None,
        },
{
    let n = bt.len();
    for i in 0..n
        invariant
            n == bt@.len(),
            forall|k: int| 0 <= k < i ==> bt@[k].0@ != key@,
    {
        if str_eq(bt[i].0.as_str(), key) {
            return match &bt[i].1 {
                JsonValue::Number(text) => crate::util::parse_u32(text.as_str()),
                _ => None,
            };
        }
    }
    None
}

/// Reads a boolean attribute from a node's property bag.
pub fn get_bool_value(bt: &Vec<(String, JsonValue)>, key: &str) -> (r: Option<bool>)
    ensures
        match bag_lookup(bt@, key@) {
            Some(JsonValue::Bool(b)) => r == Some(b),
            _ => r is None,
        },
{
    let n = bt.len();
    for i in 0..n
        invariant
            n == bt@.len(),
            forall|k: int| 0 <= k < i ==> bt@[k].0@ != key@,
    {
        if str_eq(bt[i].0.as_str(), key) {
            return match &bt[i].1 {
                JsonValue::Bool(b) => Some(*b),
                _ => None,
            };
        }
    }
    None
}

/// The parts of an absolute URL this crate reads.
#[derive(Debug)]
pub struct UrlParts {
    pub scheme: String,
    pub host: Option<String>,
    pub port: Option<u16>,
    pub path: String,
}

/// What parsing a URL yields: a function of the text alone.
pub uninterp spec fn url_parts(s: Seq<char>) -> Option<UrlParts>;

/// Relies on url::Url::parse: the scheme, host, port and path of an
/// absolute URL, or nothing when the text does not parse.
#[verifier::external_body]
pub fn parse_url_parts(s: &str) -> (r: Option<UrlParts>)
    ensures
        r == url_parts(s@),
{
    match url::Url::parse(s) {
        Ok(u) => Some(
            UrlParts {
                scheme: u.scheme().to_string(),
                host: u.host_str().map(|h| h.to_string()),
                port: u.port(),
                path: u.path().to_string(),
            },
        ),
        Err(_) => None,
    }
}

#[derive(Debug)]
pub struct CallConfig {
    pub url: String,
    pub method: String,
    pub timeout: u32,
}

#[derive(Debug)]
pub struct ExitConfig {
    pub name: String,
    pub status: Option<u32>,
    pub warn_headers_sent: bool,
}

#[derive(Debug)]
pub struct HandlebarsConfig {
    pub template: String,
    pub content_type: String,
    pub inputs: Vec<String>,
}

#[derive(Debug)]
pub struct PropertyConfig {
    pub path: Vec<String>,
    pub content_type: Option<String>,
}

#[derive(Debug)]
pub struct JqConfig {
    pub filter: Option<String>,
}

/// A node's typed configuration: one variant per registered type.
#[derive(Debug)]
pub enum NodeConfig {
    Implicit,
    Call(CallConfig),
    Exit(ExitConfig),
    Handlebars(HandlebarsConfig),
    Property(PropertyConfig),
    Jq(JqConfig),
}

impl NodeConfig {
    /// The default links into implicit nodes this configuration asks for
    /// when the user declared no inputs.
    pub fn default_inputs(&self) -> (r: Option<Vec<NodeDefaultLink>>)
        ensures
            r is None,
    {
        None
    }

    /// The default links into implicit nodes this configuration asks for
    /// when the user declared no outputs: an exit node feeds the response.
    pub fn default_outputs(&self) -> (r: Option<Vec<NodeDefaultLink>>)
        ensures
            match self {
                NodeConfig::Exit(_) => r matches Some(v) && v@.len() == 2,
                _ => r is None,
            },
    {
        match self {
            NodeConfig::Exit(_) => {
                let mut v: Vec<NodeDefaultLink> = Vec::new();
                v.push(
                    NodeDefaultLink {
                        this_port: String::from_str("body"),
                        other_node: String::from_str("response"),
                        other_port: String::from_str("body"),
                    },
                );
                v.push(
                    NodeDefaultLink {
                        this_port: String::from_str("headers"),
                        other_node: String::from_str("response"),
                        other_port: String::from_str("headers"),
                    },
                );
                Some(v)
            },
            _ => None,
        }
    }
}

/// Builds the typed configuration of a node from its resolved ports and its
/// property bag; rejects an unknown type and a call without a usable URL.
pub fn new_config(
    node_type: &str,
    name: &str,
    inputs: &Vec<String>,
    outputs: &Vec<String>,
    bt: &Vec<(String, JsonValue)>,
) -> (r: Result<NodeConfig, String>)
    ensures
        spec_node_type_of(node_type@) is None ==> r is Err,
        match spec_node_type_of(node_type@) {
            Some(NodeType::Call) => match bag_lookup(bt@, "url"@) {
                Some(JsonValue::Str(u)) => if url_parts(u@) is Some {
                    r matches Ok(c) && c matches NodeConfig::Call(cc) && cc.url == u
                } else {
                    r matches Err(e) && e@ == "call: 'url' is not a valid URL"@
                },
                _ => r matches Err(e) && e@ == "call: 'url' is a required attribute"@,
            },
            Some(NodeType::Property) => match bag_lookup(bt@, "property"@) {
                Some(JsonValue::Str(_)) => r matches Ok(c) && c matches NodeConfig::Property(_),
                _ => r matches Err(e) && e@ == "Missing `property` attribute"@,
            },
            Some(NodeType::Implicit) => r == Ok::<NodeConfig, String>(NodeConfig::Implicit),
            Some(NodeType::Exit) => r matches Ok(c) && c matches NodeConfig::Exit(_),
            Some(NodeType::Handlebars) => r matches Ok(c) && c matches NodeConfig::Handlebars(_),
            Some(NodeType::Jq) => r matches Ok(c) && c matches NodeConfig::Jq(_),
            None => r is Err,
        },
{
    match node_type_of(node_type) {
        Some(NodeType::Implicit) => Ok(NodeConfig::Implicit),
        Some(NodeType::Call) => {
            let url = match get_str_value(bt, "url") {
                Some(u) => u,
                None => {
                    return Err(String::from_str("call: 'url' is a required attribute"));
                },
            };
            match parse_url_parts(url.as_str()) {
                Some(_) => {},
                None => {
                    return Err(String::from_str("call: 'url' is not a valid URL"));
                },
            }
            let method = match get_str_value(bt, "method") {
                Some(m) => m,
                None => String::from_str("GET"),
            };
            let timeout = match get_u32_value(bt, "timeout") {
                Some(t) => t,
                None => 60,
            };
            Ok(NodeConfig::Call(CallConfig { url, method, timeout }))
        },
        Some(NodeType::Exit) => {
            let status = get_u32_value(bt, "status");
            let warn_headers_sent = match get_bool_value(bt, "warn_headers_sent") {
                Some(b) => b,
                None => true,
            };
            Ok(
                NodeConfig::Exit(
                    ExitConfig { name: name.to_owned(), status, warn_headers_sent },
                ),
            )
        },
        Some(NodeType::Handlebars) => {
            let template = match get_str_value(bt, "template") {
                Some(t) => t,
                None => String::new(),
            };
            let content_type = match get_str_value(bt, "content_type") {
                Some(ct) => ct,
                None => String::from_str("text/plain"),
            };
            let mut ins: Vec<String> = Vec::new();
            let n = inputs.len();
            for i in 0..n
                invariant
                    n == inputs@.len(),
            {
                ins.push(inputs[i].clone());
            }
            Ok(
                NodeConfig::Handlebars(
                    HandlebarsConfig { template, content_type, inputs: ins },
                ),
            )
        },
        Some(NodeType::Property) => {
            let prop = match get_str_value(bt, "property") {
                Some(p) => p,
                None => {
                    return Err(String::from_str("Missing `property` attribute"));
                },
            };
            let path = split_dots(prop.as_str());
            let content_type = get_str_value(bt, "content_type");
            Ok(NodeConfig::Property(PropertyConfig { path, content_type }))
        },
        Some(NodeType::Jq) => {
            let filter = get_str_value(bt, "jq");
            Ok(NodeConfig::Jq(JqConfig { filter }))
        },
        None => {
            let mut msg = String::from_str("no such node type: ");
            msg.append(node_type);
            Err(msg)
        },
    }
}

/// Splits a property name at each dot into its path segments.
pub fn split_dots(s: &str) -> (r: Vec<String>)
    ensures
        r@.len() >= 1,
{
    let mut out: Vec<String> = Vec::new();
    let n = s.unicode_len();
    let mut start: usize = 0;
    let mut i: usize = 0;
    while i < n
        invariant
            n == s@.len(),
            0 <= start <= i <= n,
        decreases n - i,
    {
        if s.get_char(i) == '.' {
            out.push(s.substring_char(start, i).to_owned());
            start = i + 1;
        }
        i = i + 1;
    }
    out.push(s.substring_char(start, n).to_owned());
    out
}

/// The operations the host proxy offers the engine.  The embedder
/// implements this against its proxy bindings; nothing is assumed of any
/// outcome.  The two `observe` methods feed the optional tracing layer.
pub trait Host {
    fn dispatch_http_call(
        &mut self,
        upstream: &str,
        headers: Vec<(String, String)>,
        body: Option<Vec<u8>>,
        timeout_secs: u64,
    ) -> Result<u32, String>;

    fn get_http_call_response_headers(&self) -> Vec<(String, String)>;

    fn get_http_call_response_body(&self) -> Option<Vec<u8>>;

    fn get_http_call_response_header(&self, name: &str) -> Option<String>;

    fn get_property(&self, path: &Vec<String>) -> Option<Vec<u8>>;

    fn set_property(&mut self, path: &Vec<String>, value: Option<Vec<u8>>);

    fn send_http_response(
        &mut self,
        status: u32,
        headers: Vec<(String, String)>,
        body: Option<Vec<u8>>,
    );

    fn get_http_request_headers(&self) -> Vec<(String, String)>;

    fn get_http_request_header(&self, name: &str) -> Option<String>;

    fn set_http_request_headers(&mut self, headers: Vec<(String, String)>);

    fn set_http_request_header(&mut self, name: &str, value: Option<String>);

    fn get_http_request_body(&self) -> Option<Vec<u8>>;

    fn set_http_request_body(&mut self, body: Vec<u8>);

    fn get_http_response_headers(&self) -> Vec<(String, String)>;

    fn get_http_response_header(&self, name: &str) -> Option<String>;

    fn set_http_response_headers(&mut self, headers: Vec<(String, String)>);

    fn set_http_response_header(&mut self, name: &str, value: Option<String>);

    fn get_http_response_body(&self) -> Option<Vec<u8>>;

    fn set_http_response_body(&mut self, body: Vec<u8>);

    fn resume_http_request(&mut self);

    fn observe_run(&mut self, name: &str, node_type: &str, state: &State, resume: bool);

    fn observe_set(&mut self, name: &str, state: &State);

    fn trace_json(&self) -> String;

    fn log_warn(&self, msg: &str);
}

/// A failing state carrying one error payload.
pub fn fail(msg: String) -> (r: State)
    ensures
        r matches State::Fail(ports) && ports@.len() == 1 && ports@[0] == Some(
            Payload::Error(msg),
        ),
{
    let mut ports: Vec<Option<Payload>> = Vec::new();
    ports.push(Some(Payload::Error(msg)));
    State::Fail(ports)
}

/// The request a call node hands to the host.
pub struct CallRequest {
    pub upstream: String,
    pub headers: Vec<(String, String)>,
    pub body: Option<Vec<u8>>,
    pub timeout_secs: u64,
}

/// Builds the outbound request of a call node from its configuration and
/// its input payloads: host and port from the configured URL, the body
/// encoded with no content type, the headers extended with the pseudo
/// headers.
pub fn prepare_call(config: &CallConfig, body: Option<&Payload>, headers: Option<&Payload>) -> (r:
    Result<CallRequest, String>)
    ensures
        match url_parts(config.url@) {
            Some(parts) => match parts.host {
                Some(host) => match body {
                    Some(Payload::Error(e)) => r matches Err(m) && m@ == e@,
                    _ => r matches Ok(req) && {
                        let base = match headers {
                            Some(h) => crate::payload::hdrs_of_payload(*h),
                            None => Seq::<(String, String)>::empty(),
                        };
                        &&& req.timeout_secs == config.timeout
                        &&& (match parts.port {
                            Some(port) => req.upstream@ == host@ + ":"@ + crate::util::dec_spec(
                                port as int,
                            ),
                            None => req.upstream == host,
                        })
                        &&& (match body {
                            Some(p) => req.body matches Some(b) && crate::payload::body_bytes_ok(
                                *p,
                                b@,
                            ),
                            None => req.body is None,
                        })
                        &&& req.headers@.len() == base.len() + 4
                        &&& (forall|k: int| 0 <= k < base.len() ==> req.headers@[k] == base[k])
                        &&& req.headers@[base.len() as int].0@ == ":method"@
                        &&& req.headers@[base.len() as int].1 == config.method
                        &&& req.headers@[base.len() as int + 1].0@ == ":path"@
                        &&& req.headers@[base.len() as int + 1].1 == parts.path
                        &&& req.headers@[base.len() as int + 2].0@ == ":scheme"@
                        &&& req.headers@[base.len() as int + 2].1 == parts.scheme
                        &&& req.headers@[base.len() as int + 3].0@ == ":authority"@
                        &&& req.headers@[base.len() as int + 3].1 == req.upstream
                    },
                },
                None => r matches Err(m) && m@ == "call: failed getting host from URL"@,
            },
            None => r matches Err(m) && m@ == "call: failed getting host from URL"@,
        },
{
    let parts = match parse_url_parts(config.url.as_str()) {
        Some(parts) => parts,
        None => {
            return Err(String::from_str("call: failed getting host from URL"));
        },
    };
    let host = match parts.host {
        Some(h) => h,
        None => {
            return Err(String::from_str("call: failed getting host from URL"));
        },
    };
    let body_bytes = match to_pwm_body(body) {
        Ok(b) => b,
        Err(e) => {
            return Err(e);
        },
    };
    let host_port = match parts.port {
        Some(port) => host.clone().concat(":").concat(
            crate::util::u64_to_dec(port as u64).as_str(),
        ),
        None => host.clone(),
    };
    let mut headers_vec = crate::payload::to_pwm_headers(headers);
    headers_vec.push((String::from_str(":method"), config.method.clone()));
    headers_vec.push((String::from_str(":path"), parts.path.clone()));
    headers_vec.push((String::from_str(":scheme"), parts.scheme.clone()));
    headers_vec.push((String::from_str(":authority"), host_port.clone()));
    Ok(
        CallRequest {
            upstream: host_port,
            headers: headers_vec,
            body: body_bytes,
            timeout_secs: config.timeout as u64,
        },
    )
}

/// The payload at input slot `k`, as the node sees it: absent slots and
/// unlinked ports read as nothing.
pub open spec fn input_slot<'a>(input: Input<'a>, k: int) -> Option<Payload> {
    if input.data@.len() > k {
        match input.data@[k] {
            Some(p) => Some(*p),
            None => None,
        }
    } else {
        None
    }
}

/// One failed output port carrying exactly this error message.
pub open spec fn fail_state_with(r: State, msg: Seq<char>) -> bool {
    r matches State::Fail(ports) && ports@.len() == 1 && (ports@[0] matches Some(pl) && (pl
        matches Payload::Error(m) && m@ == msg))
}

/// `prefix` opens `s`.
pub open spec fn starts_with(s: Seq<char>, prefix: Seq<char>) -> bool {
    s.len() >= prefix.len() && s.subrange(0, prefix.len() as int) == prefix
}

/// The default node result: done, with one empty output slot.
pub open spec fn default_done_post(r: State) -> bool {
    r matches State::Done(p) && p@.len() == 1 && p@[0] is None
}

/// What a call node's run returns: with no host in the configured URL it
/// fails with the fixed message; an error payload on the body port fails
/// with that error before any dispatch; otherwise it waits on whatever
/// token the host granted, or fails with the host's refusal under the
/// `call error: ` prefix.
pub open spec fn call_run_post(config: CallConfig, body: Option<Payload>, r: State) -> bool {
    match url_parts(config.url@) {
        Some(parts) => match parts.host {
            Some(_) => match body {
                Some(Payload::Error(e)) => fail_state_with(r, e@),
                _ => (r matches State::Waiting(_)) || (r matches State::Fail(ports) && ports@.len()
                    == 1 && (ports@[0] matches Some(pl) && (pl matches Payload::Error(m)
                    && starts_with(m@, "call error: "@)))),
            },
            None => fail_state_with(r, "call: failed getting host from URL"@),
        },
        None => fail_state_with(r, "call: failed getting host from URL"@),
    }
}

/// What an exit node's run returns: an error payload on the body port fails
/// with that error, anything else finishes with one empty output slot.
pub open spec fn exit_run_post(body: Option<Payload>, r: State) -> bool {
    match body {
        Some(Payload::Error(e)) => fail_state_with(r, e@),
        _ => default_done_post(r),
    }
}

/// The view of an optional content-type string.
pub open spec fn opt_ct_view(ct: Option<String>) -> Option<Seq<char>> {
    match ct {
        Some(c) => Some(c@),
        None => None,
    }
}

/// What a property node's run returns: writing an error payload fails with
/// that error, any other write finishes with JSON null; a read finishes with
/// the decoding of whatever bytes the host held, or JSON null when it held
/// none.
pub open spec fn property_run_post(config: PropertyConfig, first: Option<Payload>, r: State) -> bool {
    match first {
        Some(p) => match p {
            Payload::Error(e) => fail_state_with(r, e@),
            _ => r matches State::Done(ports) && ports@.len() == 1 && ports@[0] == Some(
                Payload::Json(JsonValue::Null),
            ),
        },
        None => r matches State::Done(ports) && ports@.len() == 1 && (ports@[0] == Some(
            Payload::Json(JsonValue::Null),
        ) || exists|bv: Vec<u8>|
            #[trigger] crate::payload::from_bytes_post(
                bv@,
                opt_ct_view(config.content_type),
                bv,
                ports@[0],
            )),
    }
}

/// What a template node's run returns, over the named rendering of its
/// template on some data object: a rendering is decoded under the
/// configured content type (a decode to an error payload fails with it), a
/// rendering failure fails under the `handlebars: ` prefix.
pub open spec fn hbs_run_post(config: HandlebarsConfig, r: State) -> bool {
    exists|data: JsonValue|
        match #[trigger] hbs_rendered(config.template@, data) {
            Ok(sv) => exists|bv: Vec<u8>, d: Option<Payload>|
                bv@ == vstd::utf8::encode_utf8(sv) && #[trigger] crate::payload::from_bytes_post(
                    bv@,
                    Some(config.content_type@),
                    bv,
                    d,
                ) && (match d {
                    Some(Payload::Error(e2)) => fail_state_with(r, e2@),
                    _ => r matches State::Done(p) && p@.len() == 1 && p@[0] == d,
                }),
            Err(ev) => fail_state_with(r, "handlebars: error rendering template: "@ + ev),
        }
}

pub struct CallNode {
    pub config: CallConfig,
}

impl CallNode {
    /// Dispatches the configured call: waits on the host token, or fails
    /// with one error payload (see `call_run_post`).
    pub fn run<H: Host>(&self, ctx: &mut H, input: &Input) -> (r: State)
        ensures
            call_run_post(self.config, input_slot(*input, 0), r),
    {
        let body: Option<&Payload> = if input.data.len() > 0 {
            input.data[0]
        } else {
            None
        };
        let headers: Option<&Payload> = if input.data.len() > 1 {
            input.data[1]
        } else {
            None
        };
        match prepare_call(&self.config, body, headers) {
            Err(e) => fail(e),
            Ok(req) => match ctx.dispatch_http_call(
                req.upstream.as_str(),
                req.headers,
                req.body,
                req.timeout_secs,
            ) {
                Ok(id) => State::Waiting(id),
                Err(status) => {
                    let msg = String::from_str("call error: ").concat(status.as_str());
                    proof {
                        assert(msg@.subrange(0, "call error: "@.len() as int) =~= "call error: "@);
                    }
                    fail(msg)
                },
            },
        }
    }

    /// Collects the completed call's response into a `Done` state: the body
    /// port holds the decoding of whatever body the host returned (nothing
    /// when it returned none), the headers port a JSON object of the
    /// response headers under lower-case names.
    pub fn resume<H: Host>(&self, ctx: &mut H, _input: &Input) -> (r: State)
        ensures
            r matches State::Done(ports) && ports@.len() == 2 && (ports@[1] matches Some(h) && h
                matches Payload::Json(jv) && jv matches JsonValue::Object(entries) && exists|
                pairs: Seq<(String, String)>,
            | #[trigger] crate::payload::headers_keys_lowered(entries@, pairs)) && (ports@[0]
                is None || exists|bv: Vec<u8>, ct: Option<Seq<char>>|
                #[trigger] crate::payload::from_bytes_post(bv@, ct, bv, ports@[0])),
    {
        let headers = Some(crate::payload::from_pwm_headers(ctx.get_http_call_response_headers()));
        let body = match ctx.get_http_call_response_body() {
            Some(b) => {
                let ct = ctx.get_http_call_response_header("Content-Type");
                let ct_ref: Option<&str> = match &ct {
                    Some(s) => Some(s.as_str()),
                    None => None,
                };
                Payload::from_bytes(b, ct_ref)
            },
            None => None,
        };
        let mut ports: Vec<Option<Payload>> = Vec::new();
        ports.push(body);
        ports.push(headers);
        State::Done(ports)
    }
}

pub struct ExitNode {
    pub config: ExitConfig,
    pub warned: bool,
}

impl ExitNode {
    /// Sends the response (or replaces the response body late in the
    /// lifecycle) and finishes; an error payload on the body port fails with
    /// that error (see `exit_run_post`).
    pub fn run<H: Host>(&mut self, ctx: &mut H, input: &Input) -> (r: State)
        ensures
            exit_run_post(input_slot(*input, 0), r),
            final(self).config == old(self).config,
    {
        let body: Option<&Payload> = if input.data.len() > 0 {
            input.data[0]
        } else {
            None
        };
        let headers: Option<&Payload> = if input.data.len() > 1 {
            input.data[1]
        } else {
            None
        };
        let mut headers_vec = crate::payload::to_pwm_headers(headers);
        match body {
            Some(p) => match p.content_type() {
                Some(ct) => {
                    headers_vec.push((String::from_str("Content-Type"), ct.to_owned()));
                },
                None => {},
            },
            None => {},
        }
        let body_bytes = match to_pwm_body(body) {
            Ok(b) => b,
            Err(e) => {
                return fail(e);
            },
        };
        if input.phase == crate::data::Phase::HttpResponseBody {
            if self.config.warn_headers_sent && !self.warned {
                self.warn_headers_sent(ctx, headers.is_some());
            }
            match body_bytes {
                Some(b) => ctx.set_http_response_body(b),
                None => {},
            }
        } else {
            let status = match self.config.status {
                Some(s) => s,
                None => 200,
            };
            ctx.send_http_response(status, headers_vec, body_bytes);
        }
        let mut ports: Vec<Option<Payload>> = Vec::new();
        ports.push(None);
        State::Done(ports)
    }

    /// Warns once that headers were already sent when the node runs during
    /// the response body.
    fn warn_headers_sent<H: Host>(&mut self, ctx: &mut H, set_headers: bool)
        ensures
            final(self).config == old(self).config,
            final(self).warned,
    {
        let set_status = self.config.status.is_some();
        if set_status || set_headers {
            let what = if set_headers && set_status {
                "status or headers"
            } else if set_status {
                "status"
            } else {
                "headers"
            };
            let msg = String::from_str("exit: node '").concat(self.config.name.as_str()).concat(
                "' cannot set ",
            ).concat(what).concat(
                " when processing response body, headers already sent; set 'warn_headers_sent' to false to silence this warning",
            );
            ctx.log_warn(msg.as_str());
        }
        self.warned = true;
    }
}

/// What rendering a template over a data object yields: a function of the
/// template and the data alone.
pub uninterp spec fn hbs_rendered(template: Seq<char>, data: JsonValue) -> Result<
    Seq<char>,
    Seq<char>,
>;

/// Relies on handlebars::Handlebars: registering the template and rendering
/// it over the data; both error paths carry the library's message.
#[verifier::external_body]
fn render_template(template: &str, data: &JsonValue) -> (r: Result<String, String>)
    ensures
        match (r, hbs_rendered(template@, *data)) {
            (Ok(s), Ok(ss)) => s@ == ss,
            (Err(e), Err(ee)) => e@ == ee,
            _ => false,
        },
{
    let mut hb = handlebars::Handlebars::new();
    if let Err(e) = hb.register_template_string("template", template) {
        return Err(e.to_string());
    }
    match hb.render("template", &crate::json::json_to_value(data)) {
        Ok(s) => Ok(s),
        Err(e) => Err(e.to_string()),
    }
}

pub struct HandlebarsNode {
    pub config: HandlebarsConfig,
}

impl HandlebarsNode {
    /// Renders the configured template over the inputs gathered into a data
    /// object, and decodes the output under the configured content type
    /// (see `hbs_run_post`).
    pub fn run<H: Host>(&self, _ctx: &mut H, input: &Input) -> (r: State)
        ensures
            hbs_run_post(self.config, r),
    {
        let mut data: Vec<(String, JsonValue)> = Vec::new();
        let n = if self.config.inputs.len() < input.data.len() {
            self.config.inputs.len()
        } else {
            input.data.len()
        };
        for i in 0..n
            invariant
                n <= self.config.inputs@.len(),
                n <= input.data@.len(),
        {
            let name = self.config.inputs[i].clone();
            match input.data[i] {
                Some(Payload::Json(v)) => {
                    crate::json::object_insert(&mut data, name, v.clone());
                },
                Some(Payload::Raw(bytes)) => {
                    match crate::json::utf8_to_string(bytes.as_slice()) {
                        Some(text) => {
                            crate::json::object_insert(&mut data, name, JsonValue::Str(text));
                        },
                        None => {},
                    }
                },
                Some(Payload::Error(e)) => {
                    crate::json::object_insert(&mut data, name, JsonValue::Str(e.clone()));
                },
                None => {},
            }
        }
        let data_value = JsonValue::Object(data);
        match render_template(self.config.template.as_str(), &data_value) {
            Ok(output) => {
                let bytes = output.as_str().as_bytes_vec();
                match Payload::from_bytes(bytes, Some(self.config.content_type.as_str())) {
                    Some(Payload::Error(e)) => {
                        let mut ports: Vec<Option<Payload>> = Vec::new();
                        ports.push(Some(Payload::Error(e)));
                        State::Fail(ports)
                    },
                    p => {
                        let mut ports: Vec<Option<Payload>> = Vec::new();
                        ports.push(p);
                        State::Done(ports)
                    },
                }
            },
            Err(err) => fail(
                String::from_str("handlebars: error rendering template: ").concat(err.as_str()),
            ),
        }
    }
}

pub struct PropertyNode {
    pub config: PropertyConfig,
}

/// The state a property read yields for each host answer: present bytes are
/// decoded under the configured content type, an absent property reads as
/// JSON null.
pub fn property_get_state(config: &PropertyConfig, fetched: Option<Vec<u8>>) -> (r: State)
    ensures
        match fetched {
            Some(bytes) => r matches State::Done(ports) && ports@.len() == 1
                && crate::payload::from_bytes_post(
                bytes@,
                match config.content_type {
                    Some(ct) => Some(ct@),
                    None => None,
                },
                bytes,
                ports@[0],
            ),
            None => r matches State::Done(ports) && ports@.len() == 1 && ports@[0] == Some(
                Payload::Json(JsonValue::Null),
            ),
        },
{
    let mut ports: Vec<Option<Payload>> = Vec::new();
    match fetched {
        Some(bytes) => {
            let ct: Option<&str> = match &config.content_type {
                Some(s) => Some(s.as_str()),
                None => None,
            };
            ports.push(Payload::from_bytes(bytes, ct));
        },
        None => {
            ports.push(Some(Payload::json_null()));
        },
    }
    State::Done(ports)
}

/// The bytes a property write stores: the payload encoded under the
/// configured content type.
pub fn property_set_bytes(config: &PropertyConfig, payload: &Payload) -> (r: Result<Vec<u8>, String>)
    ensures
        crate::payload::to_bytes_post(
            *payload,
            match config.content_type {
                Some(ct) => Some(ct@),
                None => None,
            },
            r,
        ),
{
    let ct: Option<&str> = match &config.content_type {
        Some(s) => Some(s.as_str()),
        None => None,
    };
    payload.to_bytes(ct)
}

impl PropertyNode {
    /// With an input payload, writes the property and finishes with JSON
    /// null (an error payload fails with its message); without one, reads
    /// the property (see `property_run_post`).
    pub fn run<H: Host>(&self, ctx: &mut H, input: &Input) -> (r: State)
        ensures
            property_run_post(self.config, input_slot(*input, 0), r),
    {
        let has_input: Option<&Payload> = if input.data.len() > 0 {
            input.data[0]
        } else {
            None
        };
        match has_input {
            Some(payload) => match property_set_bytes(&self.config, payload) {
                Ok(bytes) => {
                    ctx.set_property(&self.config.path, Some(bytes));
                    let mut ports: Vec<Option<Payload>> = Vec::new();
                    ports.push(Some(Payload::json_null()));
                    State::Done(ports)
                },
                Err(e) => fail(e),
            },
            None => {
                let fetched = ctx.get_property(&self.config.path);
                property_get_state(&self.config, fetched)
            },
        }
    }
}

pub struct JqNode {
    pub config: JqConfig,
}

impl JqNode {
    /// This build carries no transform implementation for this type: the
    /// node finishes with an empty output, the trait's default.
    pub fn run<H: Host>(&self, _ctx: &mut H, _input: &Input) -> (r: State)
        ensures
            r matches State::Done(p) && p@.len() == 1 && p@[0] is None,
    {
        let mut ports: Vec<Option<Payload>> = Vec::new();
        ports.push(None);
        State::Done(ports)
    }
}

/// The instance a configuration describes: the same variant, carrying the
/// same settings, with an exit node's warning not yet spent.
pub open spec fn instance_of(c: NodeConfig, n: NodeInstance) -> bool {
    match c {
        NodeConfig::Implicit => n is Implicit,
        NodeConfig::Call(cc) => n matches NodeInstance::Call(x) && x.config.url == cc.url
            && x.config.method == cc.method && x.config.timeout == cc.timeout,
        NodeConfig::Exit(ec) => n matches NodeInstance::Exit(x) && x.config.name == ec.name
            && x.config.status == ec.status && x.config.warn_headers_sent == ec.warn_headers_sent
            && !x.warned,
        NodeConfig::Handlebars(hc) => n matches NodeInstance::Handlebars(x) && x.config.template
            == hc.template && x.config.content_type == hc.content_type && x.config.inputs@
            == hc.inputs@,
        NodeConfig::Property(pc) => n matches NodeInstance::Property(x) && x.config.path@
            == pc.path@ && x.config.content_type == pc.content_type,
        NodeConfig::Jq(jc) => n matches NodeInstance::Jq(x) && x.config.filter == jc.filter,
    }
}

/// A concrete node instance, one variant per registered type.
pub enum NodeInstance {
    Implicit,
    Call(CallNode),
    Exit(ExitNode),
    Handlebars(HandlebarsNode),
    Property(PropertyNode),
    Jq(JqNode),
}

impl NodeInstance {
    /// Builds the instance a configuration describes.
    pub fn from_config(config: &NodeConfig) -> (r: NodeInstance)
        ensures
            instance_of(*config, r),
    {
        match config {
            NodeConfig::Implicit => NodeInstance::Implicit,
            NodeConfig::Call(c) => NodeInstance::Call(
                CallNode {
                    config: CallConfig {
                        url: c.url.clone(),
                        method: c.method.clone(),
                        timeout: c.timeout,
                    },
                },
            ),
            NodeConfig::Exit(c) => NodeInstance::Exit(
                ExitNode {
                    config: ExitConfig {
                        name: c.name.clone(),
                        status: c.status,
                        warn_headers_sent: c.warn_headers_sent,
                    },
                    warned: false,
                },
            ),
            NodeConfig::Handlebars(c) => {
                let mut ins: Vec<String> = Vec::new();
                let n = c.inputs.len();
                for i in 0..n
                    invariant
                        n == c.inputs@.len(),
                        ins@.len() == i,
                        forall|k: int| 0 <= k < i ==> #[trigger] ins@[k] == c.inputs@[k],
                {
                    ins.push(c.inputs[i].clone());
                }
                proof {
                    assert(ins@ =~= c.inputs@);
                }
                NodeInstance::Handlebars(
                    HandlebarsNode {
                        config: HandlebarsConfig {
                            template: c.template.clone(),
                            content_type: c.content_type.clone(),
                            inputs: ins,
                        },
                    },
                )
            },
            NodeConfig::Property(c) => {
                let mut path: Vec<String> = Vec::new();
                let n = c.path.len();
                for i in 0..n
                    invariant
                        n == c.path@.len(),
                        path@.len() == i,
                        forall|k: int| 0 <= k < i ==> #[trigger] path@[k] == c.path@[k],
                {
                    path.push(c.path[i].clone());
                }
                proof {
                    assert(path@ =~= c.path@);
                }
                NodeInstance::Property(
                    PropertyNode {
                        config: PropertyConfig {
                            path,
                            content_type: match &c.content_type {
                                Some(ct) => Some(ct.clone()),
                                None => None,
                            },
                        },
                    },
                )
            },
            NodeConfig::Jq(c) => NodeInstance::Jq(
                JqNode {
                    config: JqConfig {
                        filter: match &c.filter {
                            Some(f) => Some(f.clone()),
                            None => None,
                        },
                    },
                },
            ),
        }
    }

    /// Runs the node for this phase, dispatching to its variant's contract.
    pub fn run<H: Host>(&mut self, ctx: &mut H, input: &Input) -> (r: State)
        ensures
            match *old(self) {
                NodeInstance::Implicit => default_done_post(r) && *final(self) == *old(self),
                NodeInstance::Call(n) => call_run_post(n.config, input_slot(*input, 0), r)
                    && *final(self) == *old(self),
                NodeInstance::Exit(n) => exit_run_post(input_slot(*input, 0), r) && (*final(self)
                    matches NodeInstance::Exit(n2) && n2.config == n.config),
                NodeInstance::Handlebars(n) => hbs_run_post(n.config, r)
                    && *final(self) == *old(self),
                NodeInstance::Property(n) => property_run_post(n.config, input_slot(*input, 0), r)
                    && *final(self) == *old(self),
                NodeInstance::Jq(_) => default_done_post(r) && *final(self) == *old(self),
            },
    {
        match self {
            NodeInstance::Implicit => default_done(),
            NodeInstance::Call(n) => n.run(ctx, input),
            NodeInstance::Exit(n) => n.run(ctx, input),
            NodeInstance::Handlebars(n) => n.run(ctx, input),
            NodeInstance::Property(n) => n.run(ctx, input),
            NodeInstance::Jq(n) => n.run(ctx, input),
        }
    }

    /// Advances the node after its awaited completion arrived: a call node
    /// collects its response, any other finishes with one empty slot.
    pub fn resume<H: Host>(&mut self, ctx: &mut H, input: &Input) -> (r: State)
        ensures
            match *old(self) {
                NodeInstance::Call(_) => r matches State::Done(ports) && ports@.len() == 2,
                _ => default_done_post(r),
            },
            *final(self) == *old(self),
    {
        match self {
            NodeInstance::Call(n) => n.resume(ctx, input),
            _ => default_done(),
        }
    }
}

/// The default node result: done, with one empty output slot.
pub fn default_done() -> (r: State)
    ensures
        r matches State::Done(p) && p@.len() == 1 && p@[0] is None,
{
    let mut ports: Vec<Option<Payload>> = Vec::new();
    ports.push(None);
    State::Done(ports)
}


} // verus!
