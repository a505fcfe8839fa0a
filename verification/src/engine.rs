//! The filter driver: lifecycle hooks, the fixed-point scheduler, and the
//! implicit-node plumbing between the store and the host.

use crate::config::Config;
use crate::data::{Data, Input, Phase, State};
use crate::nodes::{Host, NodeInstance};
use crate::payload::{to_json_error_body, Payload};
use crate::util::str_eq;
use vstd::prelude::*;
use vstd::string::StringExecFns;

verus! {

/// What a lifecycle hook tells the host: keep going, or hold the stream
/// until an async completion arrives.
#[derive(PartialEq, Eq, Structural, Clone, Copy, Debug)]
pub enum Action {
    Continue,
    Pause,
}

/// The implicit node indices, in their fixed order.
pub const REQUEST_NODE: usize = 0;

pub const SERVICE_REQUEST_NODE: usize = 1;

pub const SERVICE_RESPONSE_NODE: usize = 2;

pub const RESPONSE_NODE: usize = 3;

/// The implicit port indices: a body port then a headers port.
pub const BODY_PORT: usize = 0;

pub const HEADERS_PORT: usize = 1;

/// Whether a tracing header value switches tracing on: anything but the
/// literal `off`, `false` or `0` counts, absence does not.
pub open spec fn header_bool_spec(v: Option<Seq<char>>) -> bool {
    match v {
        Some(val) => val != "off"@ && val != "false"@ && val != "0"@,
        None => false,
    }
}

pub fn header_to_bool(header_value: &Option<String>) -> (r: bool)
    ensures
        r == header_bool_spec(
            match header_value {
                Some(v) => Some(v@),
                None => None,
            },
        ),
{
    match header_value {
        Some(val) => !str_eq(val.as_str(), "off") && !str_eq(val.as_str(), "false") && !str_eq(
            val.as_str(),
            "0",
        ),
        None => false,
    }
}

/// Sends the default failure answer: status 500 with the standard JSON body,
/// naming the request id when the host knows one.
pub fn send_default_fail_response<H: Host>(ctx: &mut H) {
    let mut path: Vec<String> = Vec::new();
    path.push(String::from_str("ngx"));
    path.push(String::from_str("kong_request_id"));
    let request_id = ctx.get_property(&path);
    let body = to_json_error_body("An unexpected error ocurred", request_id);
    let mut headers: Vec<(String, String)> = Vec::new();
    headers.push((String::from_str("Content-Type"), String::from_str("application/json")));
    ctx.send_http_response(500, headers, Some(body.as_str().as_bytes_vec()));
}

/// Some node in `[from, to)` went from unrecorded in `d0` to waiting in
/// `d1`: a run during this request's sweep returned `Waiting`.
pub open spec fn newly_waiting(d0: Data, d1: Data, from: int, to: int) -> bool {
    exists|i: int|
        from <= i < to && d0.spec_state(i) is None && (#[trigger] d1.spec_state(i)) matches Some(
            State::Waiting(_),
        )
}

/// Some node in `[from, to)` went from unrecorded in `d0` to failed in `d1`.
pub open spec fn newly_failed(d0: Data, d1: Data, from: int, to: int) -> bool {
    exists|i: int|
        from <= i < to && d0.spec_state(i) is None && (#[trigger] d1.spec_state(i)) matches Some(
            State::Fail(_),
        )
}

/// A store step that neither adds nor removes a waiting state at `i` leaves
/// `newly_waiting` unchanged.
proof fn lemma_newly_waiting_frame(d0: Data, d1: Data, d2: Data, from: int, to: int, i: int)
    requires
        forall|m: int|
            from <= m < to && m != i ==> #[trigger] d2.spec_state(m) == d1.spec_state(m),
        !(d1.spec_state(i) matches Some(State::Waiting(_))),
        !(d2.spec_state(i) matches Some(State::Waiting(_))),
    ensures
        newly_waiting(d0, d2, from, to) == newly_waiting(d0, d1, from, to),
{
    if newly_waiting(d0, d1, from, to) {
        let w = choose|w: int|
            from <= w < to && d0.spec_state(w) is None && (#[trigger] d1.spec_state(w)) matches Some(
                State::Waiting(_),
            );
        assert(d2.spec_state(w) == d1.spec_state(w));
        assert(newly_waiting(d0, d2, from, to));
    }
    if newly_waiting(d0, d2, from, to) {
        let w = choose|w: int|
            from <= w < to && d0.spec_state(w) is None && (#[trigger] d2.spec_state(w)) matches Some(
                State::Waiting(_),
            );
        assert(d1.spec_state(w) == d2.spec_state(w));
        assert(newly_waiting(d0, d1, from, to));
    }
}

/// The same frame fact for `newly_failed`.
proof fn lemma_newly_failed_frame(d0: Data, d1: Data, d2: Data, from: int, to: int, i: int)
    requires
        forall|m: int|
            from <= m < to && m != i ==> #[trigger] d2.spec_state(m) == d1.spec_state(m),
        !(d1.spec_state(i) matches Some(State::Fail(_))),
        !(d2.spec_state(i) matches Some(State::Fail(_))),
    ensures
        newly_failed(d0, d2, from, to) == newly_failed(d0, d1, from, to),
{
    if newly_failed(d0, d1, from, to) {
        let w = choose|w: int|
            from <= w < to && d0.spec_state(w) is None && (#[trigger] d1.spec_state(w)) matches Some(
                State::Fail(_),
            );
        assert(d2.spec_state(w) == d1.spec_state(w));
        assert(newly_failed(d0, d2, from, to));
    }
    if newly_failed(d0, d2, from, to) {
        let w = choose|w: int|
            from <= w < to && d0.spec_state(w) is None && (#[trigger] d2.spec_state(w)) matches Some(
                State::Fail(_),
            );
        assert(d1.spec_state(w) == d2.spec_state(w));
        assert(newly_failed(d0, d1, from, to));
    }
}

/// Two baselines that agree on the window see the same new states.
proof fn lemma_newly_base_swap(d0a: Data, d0b: Data, d1: Data, from: int, to: int)
    requires
        forall|m: int| from <= m < to ==> #[trigger] d0a.spec_state(m) == d0b.spec_state(m),
    ensures
        newly_waiting(d0a, d1, from, to) == newly_waiting(d0b, d1, from, to),
        newly_failed(d0a, d1, from, to) == newly_failed(d0b, d1, from, to),
{
    assert forall|i: int|
        from <= i < to && d0a.spec_state(i) is None implies d0b.spec_state(i) is None by {
        assert(d0a.spec_state(i) == d0b.spec_state(i));
    }
    assert forall|i: int|
        from <= i < to && d0b.spec_state(i) is None implies d0a.spec_state(i) is None by {
        assert(d0a.spec_state(i) == d0b.spec_state(i));
    }
}

/// Two result states that agree on the window hold the same new states.
proof fn lemma_newly_state_swap(d0: Data, d1a: Data, d1b: Data, from: int, to: int)
    requires
        forall|m: int| from <= m < to ==> #[trigger] d1a.spec_state(m) == d1b.spec_state(m),
    ensures
        newly_waiting(d0, d1a, from, to) == newly_waiting(d0, d1b, from, to),
        newly_failed(d0, d1a, from, to) == newly_failed(d0, d1b, from, to),
{
    assert forall|i: int|
        from <= i < to implies ((#[trigger] d1a.spec_state(i)) matches Some(State::Waiting(_))
        == (d1b.spec_state(i) matches Some(State::Waiting(_)))) && ((d1a.spec_state(i))
        matches Some(State::Fail(_)) == (d1b.spec_state(i) matches Some(State::Fail(_)))) by {
        assert(d1a.spec_state(i) == d1b.spec_state(i));
    }
    if newly_waiting(d0, d1a, from, to) {
        let w = choose|w: int|
            from <= w < to && d0.spec_state(w) is None && (#[trigger] d1a.spec_state(w))
                matches Some(State::Waiting(_));
        assert(d1b.spec_state(w) == d1a.spec_state(w));
        assert(newly_waiting(d0, d1b, from, to));
    }
    if newly_waiting(d0, d1b, from, to) {
        let w = choose|w: int|
            from <= w < to && d0.spec_state(w) is None && (#[trigger] d1b.spec_state(w))
                matches Some(State::Waiting(_));
        assert(d1a.spec_state(w) == d1b.spec_state(w));
        assert(newly_waiting(d0, d1a, from, to));
    }
    if newly_failed(d0, d1a, from, to) {
        let w = choose|w: int|
            from <= w < to && d0.spec_state(w) is None && (#[trigger] d1a.spec_state(w))
                matches Some(State::Fail(_));
        assert(d1b.spec_state(w) == d1a.spec_state(w));
        assert(newly_failed(d0, d1b, from, to));
    }
    if newly_failed(d0, d1b, from, to) {
        let w = choose|w: int|
            from <= w < to && d0.spec_state(w) is None && (#[trigger] d1b.spec_state(w))
                matches Some(State::Fail(_));
        assert(d1a.spec_state(w) == d1b.spec_state(w));
        assert(newly_failed(d0, d1a, from, to));
    }
}

/// The per-request engine: the compiled configuration, the node instances,
/// the store, and the wiring flags of the implicit ports.
pub struct Engine {
    pub config: Config,
    pub nodes: Vec<NodeInstance>,
    pub data: Data,
    pub failed: bool,
    pub tracing: bool,
    pub saved_response_ct: Option<String>,
    pub do_request_headers: bool,
    pub do_request_body: bool,
    pub do_service_request_headers: bool,
    pub do_service_request_body: bool,
    pub do_service_response_headers: bool,
    pub do_service_response_body: bool,
    pub do_response_headers: bool,
    pub do_response_body: bool,
}

/// The configuration shape the engine runs on: a well-formed graph whose
/// first four nodes are the implicit envelopes with their body and headers
/// ports in place.
pub open spec fn engine_config_shape(config: Config) -> bool {
    &&& config.graph.wf()
    &&& config.n_nodes == config.graph.spec_num_nodes()
    &&& config.node_list@.len() == config.n_nodes
    &&& config.n_implicits == 4
    &&& config.graph.spec_num_nodes() >= 4
    &&& config.graph.spec_num_outputs(0) >= 2
    &&& config.graph.spec_num_inputs(1) >= 2
    &&& config.graph.spec_num_outputs(2) >= 2
    &&& config.graph.spec_num_inputs(3) >= 2
    &&& config.graph.spec_num_outputs(1) >= 2
    &&& config.graph.spec_num_outputs(3) >= 2
}

impl Engine {
    /// The engine's standing well-formedness.
    pub open spec fn wf(&self) -> bool {
        &&& engine_config_shape(self.config)
        &&& self.data.wf(&self.config.graph)
        &&& self.nodes@.len() == self.config.n_nodes
    }

    /// Builds the engine over a compiled configuration: instantiates the
    /// nodes, allocates the store, and reads off which implicit ports are
    /// wired.
    pub fn new(config: Config) -> (r: Engine)
        requires
            engine_config_shape(config),
        ensures
            r.wf(),
            !r.failed,
            !r.tracing,
            r.saved_response_ct is None,
            r.config == config,
            forall|n: int|
                0 <= n < config.graph.spec_num_nodes() ==> #[trigger] r.data.spec_state(n) is None,
            r.do_request_headers == (config.graph.spec_dependents(0, 1).len() > 0),
            r.do_request_body == (config.graph.spec_dependents(0, 0).len() > 0),
            r.do_service_request_headers == (config.graph.spec_provider(1, 1) is Some),
            r.do_service_request_body == (config.graph.spec_provider(1, 0) is Some),
            r.do_service_response_headers == (config.graph.spec_dependents(2, 1).len() > 0),
            r.do_service_response_body == (config.graph.spec_dependents(2, 0).len() > 0),
            r.do_response_headers == (config.graph.spec_provider(3, 1) is Some),
            r.do_response_body == (config.graph.spec_provider(3, 0) is Some),
    {
        let nodes = config.build_nodes();
        let data = Data::new(&config.graph);
        let graph = &config.graph;
        let do_request_headers = graph.has_dependents(REQUEST_NODE, HEADERS_PORT);
        let do_request_body = graph.has_dependents(REQUEST_NODE, BODY_PORT);
        let do_service_request_headers = graph.has_providers(SERVICE_REQUEST_NODE, HEADERS_PORT);
        let do_service_request_body = graph.has_providers(SERVICE_REQUEST_NODE, BODY_PORT);
        let do_service_response_headers = graph.has_dependents(SERVICE_RESPONSE_NODE, HEADERS_PORT);
        let do_service_response_body = graph.has_dependents(SERVICE_RESPONSE_NODE, BODY_PORT);
        let do_response_headers = graph.has_providers(RESPONSE_NODE, HEADERS_PORT);
        let do_response_body = graph.has_providers(RESPONSE_NODE, BODY_PORT);
        Engine {
            config,
            nodes,
            data,
            failed: false,
            tracing: false,
            saved_response_ct: None,
            do_request_headers,
            do_request_body,
            do_service_request_headers,
            do_service_request_body,
            do_service_response_headers,
            do_service_response_body,
            do_response_headers,
            do_response_body,
        }
    }

    /// Writes a payload onto an implicit node's output port and reports it
    /// to the tracer.  A refused fill (a second write to the same port, a
    /// programmer error) is surfaced to the caller and changes nothing.
    fn set_implicit_data<H: Host>(
        &mut self,
        ctx: &mut H,
        node: usize,
        port: usize,
        payload: Payload,
    ) -> (r: Result<(), &'static str>)
        requires
            old(self).wf(),
            node < 4,
            port < old(self).config.graph.spec_num_outputs(node as int),
        ensures
            final(self).wf(),
            final(self).config == old(self).config,
            final(self).nodes == old(self).nodes,
            final(self).failed == old(self).failed,
            final(self).tracing == old(self).tracing,
            forall|m: int|
                0 <= m < old(self).config.graph.spec_num_nodes() && m != node
                    ==> #[trigger] final(self).data.spec_state(m) == old(self).data.spec_state(m),
            (r is Err) == old(self).data.fill_refused(node as int, port as int),
            r is Err ==> final(self).data == old(self).data,
    {
        let r = self.data.fill_port(&self.config.graph, node, port, payload);
        match r {
            Ok(()) => {
                if self.tracing {
                    match self.data.get_state(node) {
                        Ok(state) => {
                            let name = self.config.get_node_name(node);
                            ctx.observe_set(name, state);
                        },
                        Err(_) => {},
                    }
                }
                Ok(())
            },
            Err(e) => Err(e),
        }
    }

    fn set_headers_data<H: Host>(&mut self, ctx: &mut H, node: usize, vec: Vec<(String, String)>) -> (r:
        Result<(), &'static str>)
        requires
            old(self).wf(),
            node < 4,
            HEADERS_PORT < old(self).config.graph.spec_num_outputs(node as int),
        ensures
            final(self).wf(),
            final(self).config == old(self).config,
            final(self).nodes == old(self).nodes,
            final(self).failed == old(self).failed,
            final(self).tracing == old(self).tracing,
            forall|m: int|
                0 <= m < old(self).config.graph.spec_num_nodes() && m != node
                    ==> #[trigger] final(self).data.spec_state(m) == old(self).data.spec_state(m),
            (r is Err) == old(self).data.fill_refused(node as int, HEADERS_PORT as int),
    {
        let payload = crate::payload::from_pwm_headers(vec);
        self.set_implicit_data(ctx, node, HEADERS_PORT, payload)
    }

    fn set_body_data<H: Host>(&mut self, ctx: &mut H, node: usize, payload: Payload) -> (r: Result<
        (),
        &'static str,
    >)
        requires
            old(self).wf(),
            node < 4,
            BODY_PORT < old(self).config.graph.spec_num_outputs(node as int),
        ensures
            final(self).wf(),
            final(self).config == old(self).config,
            final(self).nodes == old(self).nodes,
            final(self).failed == old(self).failed,
            final(self).tracing == old(self).tracing,
            forall|m: int|
                0 <= m < old(self).config.graph.spec_num_nodes() && m != node
                    ==> #[trigger] final(self).data.spec_state(m) == old(self).data.spec_state(m),
            (r is Err) == old(self).data.fill_refused(node as int, BODY_PORT as int),
    {
        self.set_implicit_data(ctx, node, BODY_PORT, payload)
    }

    fn get_headers_data(&self, node: usize) -> (r: Option<&Payload>)
        requires
            self.wf(),
            node < 4,
            HEADERS_PORT < self.config.graph.spec_num_inputs(node as int),
    {
        self.data.fetch_port(&self.config.graph, node, HEADERS_PORT)
    }

    fn get_body_data(&self, node: usize) -> (r: Option<&Payload>)
        requires
            self.wf(),
            node < 4,
            BODY_PORT < self.config.graph.spec_num_inputs(node as int),
    {
        self.data.fetch_port(&self.config.graph, node, BODY_PORT)
    }

    /// The fixed-point sweep: repeatedly runs every ready user node until a
    /// sweep runs none.  Only user nodes change, and only unrecorded ones;
    /// on a non-failed return no user node is left ready; the result is
    /// `Pause` exactly when some run went waiting; `failed` becomes true
    /// exactly when some run failed (and latches), upon which, outside
    /// tracing, the default failure answer is sent at once.
    pub fn run_nodes<H: Host>(&mut self, ctx: &mut H, phase: Phase) -> (r: Action)
        requires
            old(self).wf(),
        ensures
            final(self).wf(),
            final(self).config == old(self).config,
            final(self).tracing == old(self).tracing,
            forall|i: int|
                0 <= i < old(self).config.graph.spec_num_nodes() && old(self).data.spec_state(i)
                    is Some ==> #[trigger] final(self).data.spec_state(i) == old(
                    self,
                ).data.spec_state(i),
            forall|i: int|
                0 <= i < old(self).config.graph.spec_num_nodes() && !(old(self).config.n_implicits
                    <= i < old(self).config.n_nodes) ==> #[trigger] final(self).data.spec_state(i)
                    == old(self).data.spec_state(i),
            final(self).failed == (old(self).failed || newly_failed(
                old(self).data,
                final(self).data,
                old(self).config.n_implicits as int,
                old(self).config.n_nodes as int,
            )),
            (r == Action::Pause) == newly_waiting(
                old(self).data,
                final(self).data,
                old(self).config.n_implicits as int,
                old(self).config.n_nodes as int,
            ),
            !final(self).failed ==> forall|i: int|
                old(self).config.n_implicits <= i < old(self).config.n_nodes
                    ==> !final(self).data.ready(&final(self).config.graph, i, None),
    {
        let mut ret = Action::Continue;
        let from = self.config.number_of_implicits();
        let to = self.config.node_count();
        // each productive sweep records at least one unstarted node, so this
        // budget is provably never the binding exit
        let mut rounds = if to < usize::MAX {
            to + 1
        } else {
            to
        };
        let mut done = false;
        proof {
            crate::data::lemma_count_unstarted_bounds(self.data, from as int, to as int);
        }
        while !done && !self.failed && rounds > 0
            invariant
                self.wf(),
                self.config == old(self).config,
                self.tracing == old(self).tracing,
                from == self.config.n_implicits,
                to == self.config.n_nodes,
                forall|i: int|
                    0 <= i < old(self).config.graph.spec_num_nodes() && old(self).data.spec_state(
                        i,
                    ) is Some ==> #[trigger] self.data.spec_state(i) == old(self).data.spec_state(
                        i,
                    ),
                forall|i: int|
                    0 <= i < old(self).config.graph.spec_num_nodes() && !(from <= i < to)
                        ==> #[trigger] self.data.spec_state(i) == old(self).data.spec_state(i),
                self.failed == (old(self).failed || newly_failed(
                    old(self).data,
                    self.data,
                    from as int,
                    to as int,
                )),
                (ret == Action::Pause) == newly_waiting(
                    old(self).data,
                    self.data,
                    from as int,
                    to as int,
                ),
                !done ==> rounds as int >= crate::data::count_unstarted(
                    self.data,
                    from as int,
                    to as int,
                ) + 1,
                done ==> forall|j: int|
                    from <= j < to ==> !self.data.ready(&self.config.graph, j, None),
            decreases rounds,
        {
            rounds = rounds - 1;
            let ghost sweep_data = self.data;
            let ghost sweep_count = crate::data::count_unstarted(
                sweep_data,
                from as int,
                to as int,
            );
            let mut any_ran = false;
            let mut i = from;
            while i < to
                invariant
                    self.wf(),
                    self.config == old(self).config,
                    self.tracing == old(self).tracing,
                    from == self.config.n_implicits,
                    to == self.config.n_nodes,
                    from <= i,
                    forall|m: int|
                        0 <= m < old(self).config.graph.spec_num_nodes() && old(
                            self,
                        ).data.spec_state(m) is Some ==> #[trigger] self.data.spec_state(m) == old(
                            self,
                        ).data.spec_state(m),
                    forall|m: int|
                        0 <= m < old(self).config.graph.spec_num_nodes() && !(from <= m < to)
                            ==> #[trigger] self.data.spec_state(m) == old(self).data.spec_state(m),
                    self.failed == (old(self).failed || newly_failed(
                        old(self).data,
                        self.data,
                        from as int,
                        to as int,
                    )),
                    (ret == Action::Pause) == newly_waiting(
                        old(self).data,
                        self.data,
                        from as int,
                        to as int,
                    ),
                    crate::data::count_unstarted(self.data, from as int, to as int) <= sweep_count
                        - (if any_ran {
                        1int
                    } else {
                        0int
                    }),
                    !any_ran ==> self.data == sweep_data,
                    !any_ran ==> forall|j: int|
                        from <= j < i ==> !self.data.ready(&self.config.graph, j, None),
                decreases to - i,
            {
                let ghost pre_data = self.data;
                let inputs_opt = self.data.get_inputs_for(&self.config.graph, i, None);
                match inputs_opt {
                    Some(inputs) => {
                        let ghost was_ran = any_ran;
                        any_ran = true;
                        let input = Input { data: inputs, phase };
                        let state = self.nodes[i].run(ctx, &input);
                        if self.tracing {
                            let name = self.config.get_node_name(i);
                            let node_type = self.config.get_node_type(i);
                            ctx.observe_run(name, node_type, &state, false);
                            ctx.observe_set(name, &state);
                        }
                        let ghost stored = state;
                        let mut went_failed = false;
                        match &state {
                            State::Done(_) => {},
                            State::Waiting(_) => {
                                ret = Action::Pause;
                            },
                            State::Fail(_) => {
                                went_failed = true;
                            },
                        }
                        self.data.set(i, state);
                        proof {
                            assert(pre_data.spec_state(i as int) is None);
                            assert(old(self).data.spec_state(i as int) is None);
                            assert forall|m: int|
                                0 <= m < old(self).config.graph.spec_num_nodes() && old(
                                    self,
                                ).data.spec_state(m) is Some implies #[trigger] self.data.spec_state(
                                m,
                            ) == old(self).data.spec_state(m) by {
                                if m != i as int {
                                    assert(self.data.spec_state(m) == pre_data.spec_state(m));
                                }
                            }
                            assert forall|m: int|
                                0 <= m < old(self).config.graph.spec_num_nodes() && !(from <= m
                                    < to) implies #[trigger] self.data.spec_state(m) == old(
                                self,
                            ).data.spec_state(m) by {
                                if m != i as int {
                                    assert(self.data.spec_state(m) == pre_data.spec_state(m));
                                }
                            }
                            assert forall|m: int|
                                from <= m < to && m != i as int implies #[trigger] self.data.spec_state(
                                m,
                            ) == pre_data.spec_state(m) by {
                                assert(self.data.states@ == pre_data.states@.update(
                                    i as int,
                                    Some(stored),
                                ));
                            }
                            crate::data::lemma_count_unstarted_update(
                                pre_data,
                                self.data,
                                from as int,
                                to as int,
                                i as int,
                            );
                            match stored {
                                State::Waiting(_) => {
                                    assert(newly_waiting(
                                        old(self).data,
                                        self.data,
                                        from as int,
                                        to as int,
                                    ));
                                    lemma_newly_failed_frame(
                                        old(self).data,
                                        pre_data,
                                        self.data,
                                        from as int,
                                        to as int,
                                        i as int,
                                    );
                                },
                                State::Fail(_) => {
                                    assert(newly_failed(
                                        old(self).data,
                                        self.data,
                                        from as int,
                                        to as int,
                                    ));
                                    lemma_newly_waiting_frame(
                                        old(self).data,
                                        pre_data,
                                        self.data,
                                        from as int,
                                        to as int,
                                        i as int,
                                    );
                                },
                                State::Done(_) => {
                                    lemma_newly_waiting_frame(
                                        old(self).data,
                                        pre_data,
                                        self.data,
                                        from as int,
                                        to as int,
                                        i as int,
                                    );
                                    lemma_newly_failed_frame(
                                        old(self).data,
                                        pre_data,
                                        self.data,
                                        from as int,
                                        to as int,
                                        i as int,
                                    );
                                },
                            }
                        }
                        if went_failed {
                            self.failed = true;
                            if !self.tracing {
                                send_default_fail_response(ctx);
                            }
                        }
                    },
                    None => {},
                }
                i = i + 1;
            }
            if !any_ran {
                done = true;
            }
        }
        proof {
            if !self.failed && !done {
                crate::data::lemma_count_unstarted_bounds(self.data, from as int, to as int);
                assert(false);
            }
        }
        ret
    }

    /// Advances the single node waiting on the completed call's token, then
    /// re-enters the fixed-point sweep and flushes pending upstream writes.
    /// Of the nodes that already held a state, at most one changes, and only
    /// one that was waiting on exactly this token; on a non-failed return no
    /// user node is left ready.
    pub fn on_http_call_response<H: Host>(&mut self, ctx: &mut H, token_id: u32)
        requires
            old(self).wf(),
        ensures
            final(self).wf(),
            final(self).config == old(self).config,
            forall|m: int|
                0 <= m < old(self).config.graph.spec_num_nodes() && old(self).data.spec_state(m)
                    is Some && final(self).data.spec_state(m) != old(self).data.spec_state(m)
                    ==> #[trigger] old(self).data.spec_state(m) == Some(State::Waiting(token_id)),
            forall|m1: int, m2: int|
                #![trigger final(self).data.spec_state(m1), final(self).data.spec_state(m2)]
                0 <= m1 < old(self).config.graph.spec_num_nodes() && 0 <= m2 < old(
                    self,
                ).config.graph.spec_num_nodes() && old(self).data.spec_state(m1) is Some && old(
                    self,
                ).data.spec_state(m2) is Some && final(self).data.spec_state(m1) != old(
                    self,
                ).data.spec_state(m1) && final(self).data.spec_state(m2) != old(
                    self,
                ).data.spec_state(m2) ==> m1 == m2,
            !final(self).failed ==> forall|i: int|
                old(self).config.n_implicits <= i < old(self).config.n_nodes
                    ==> !final(self).data.ready(&final(self).config.graph, i, None),
    {
        let ghost entry_data = self.data;
        let from = self.config.number_of_implicits();
        let to = self.config.node_count();
        let mut i = from;
        let mut advanced = false;
        let ghost mut advanced_node: int = 0;
        while i < to && !advanced
            invariant
                self.wf(),
                self.config == old(self).config,
                from == self.config.n_implicits,
                to == self.config.n_nodes,
                from <= i,
                entry_data == old(self).data,
                !advanced ==> self.data == entry_data,
                advanced ==> forall|m: int|
                    0 <= m < entry_data.states@.len() && m != advanced_node
                        ==> #[trigger] self.data.spec_state(m) == entry_data.spec_state(m),
                advanced ==> (entry_data.spec_state(advanced_node) is None
                    || entry_data.spec_state(advanced_node) == Some(State::Waiting(token_id))),
            decreases to - i + (if advanced {
                0int
            } else {
                1int
            }),
        {
            let inputs_opt = self.data.get_inputs_for(&self.config.graph, i, Some(token_id));
            match inputs_opt {
                Some(inputs) => {
                    let input = Input { data: inputs, phase: Phase::HttpCallResponse };
                    let state = self.nodes[i].resume(ctx, &input);
                    if self.tracing {
                        let name = self.config.get_node_name(i);
                        let node_type = self.config.get_node_type(i);
                        ctx.observe_run(name, node_type, &state, true);
                        ctx.observe_set(name, &state);
                    }
                    let ghost pre_data = self.data;
                    self.data.set(i, state);
                    advanced = true;
                    proof {
                        advanced_node = i as int;
                        assert(pre_data.spec_state(i as int) is None || pre_data.spec_state(
                            i as int,
                        ) == Some(State::Waiting(token_id)));
                        assert forall|m: int|
                            0 <= m < entry_data.states@.len() && m != i as int
                                implies #[trigger] self.data.spec_state(m) == entry_data.spec_state(
                            m,
                        ) by {
                            assert(self.data.states@ == pre_data.states@.update(
                                i as int,
                                Some(state),
                            ));
                        }
                    }
                },
                None => {
                    i = i + 1;
                },
            }
        }
        let ghost mid_data = self.data;
        self.run_nodes(ctx, Phase::HttpCallResponse);
        proof {
            assert forall|m: int|
                0 <= m < old(self).config.graph.spec_num_nodes() && entry_data.spec_state(m)
                    is Some && self.data.spec_state(m) != entry_data.spec_state(m)
                    implies #[trigger] entry_data.spec_state(m) == Some(
                State::Waiting(token_id),
            ) by {
                if mid_data.spec_state(m) == entry_data.spec_state(m) {
                    assert(self.data.spec_state(m) == mid_data.spec_state(m));
                }
            }
            assert forall|m1: int, m2: int|
                #![trigger self.data.spec_state(m1), self.data.spec_state(m2)]
                0 <= m1 < old(self).config.graph.spec_num_nodes() && 0 <= m2 < old(
                    self,
                ).config.graph.spec_num_nodes() && entry_data.spec_state(m1) is Some
                    && entry_data.spec_state(m2) is Some && self.data.spec_state(m1)
                    != entry_data.spec_state(m1) && self.data.spec_state(m2)
                    != entry_data.spec_state(m2) implies m1 == m2 by {
                if mid_data.spec_state(m1) == entry_data.spec_state(m1) {
                    assert(self.data.spec_state(m1) == mid_data.spec_state(m1));
                }
                if mid_data.spec_state(m2) == entry_data.spec_state(m2) {
                    assert(self.data.spec_state(m2) == mid_data.spec_state(m2));
                }
            }
        }
        self.set_service_request_headers(ctx);
        self.prep_service_request_body(ctx);
        ctx.resume_http_request();
    }

    /// Switches tracing on when the debug header asks for it; tracing forces
    /// the response body through the engine.
    fn debug_init<H: Host>(&mut self, ctx: &mut H)
        requires
            old(self).wf(),
            old(self).config.debug,
        ensures
            final(self).wf(),
            final(self).config == old(self).config,
            final(self).data == old(self).data,
            final(self).failed == old(self).failed,
    {
        let trace_header = ctx.get_http_request_header("X-DataKit-Debug-Trace");
        if header_to_bool(&trace_header) {
            self.tracing = true;
            self.do_response_body = true;
        }
    }

    fn debug_done_headers<H: Host>(&mut self, ctx: &mut H)
        requires
            old(self).wf(),
        ensures
            final(self).wf(),
            final(self).config == old(self).config,
            final(self).data == old(self).data,
            final(self).failed == old(self).failed,
            final(self).tracing == old(self).tracing,
    {
        let ct = ctx.get_http_response_header("Content-Type");
        if self.tracing {
            self.saved_response_ct = ct;
            ctx.set_http_response_header("Content-Type", Some(String::from_str("application/json")));
            ctx.set_http_response_header("Content-Length", None);
            ctx.set_http_response_header("Content-Encoding", None);
        }
    }

    fn debug_done<H: Host>(&mut self, ctx: &mut H)
        requires
            old(self).wf(),
        ensures
            final(self).wf(),
            *final(self) == *old(self),
    {
        if self.tracing {
            let trace = ctx.trace_json();
            ctx.set_http_response_body(trace.as_str().as_bytes_vec());
        }
    }

    fn set_service_request_headers<H: Host>(&mut self, ctx: &mut H)
        requires
            old(self).wf(),
        ensures
            final(self).wf(),
            final(self).config == old(self).config,
            final(self).data == old(self).data,
            final(self).failed == old(self).failed,
            final(self).tracing == old(self).tracing,
    {
        if self.do_service_request_headers {
            let mut sent = false;
            match self.get_headers_data(SERVICE_REQUEST_NODE) {
                Some(payload) => {
                    let headers = payload.to_pwm_headers();
                    ctx.set_http_request_headers(headers);
                    sent = true;
                },
                None => {},
            }
            if sent {
                self.do_service_request_headers = false;
            }
        }
    }

    /// The content headers to rewrite when a body is about to be replaced:
    /// the payload's content type when it has one, the exact length when it
    /// is known (the header is deleted when it is not), and no stale
    /// content encoding.
    fn content_header_plan(payload: Option<&Payload>) -> (r: Vec<(String, Option<String>)>) {
        let mut plan: Vec<(String, Option<String>)> = Vec::new();
        match payload {
            Some(p) => {
                match p.content_type() {
                    Some(ct) => {
                        plan.push((String::from_str("Content-Type"), Some(ct.to_owned())));
                    },
                    None => {},
                }
                match p.len() {
                    Some(n) => {
                        plan.push(
                            (
                                String::from_str("Content-Length"),
                                Some(crate::util::u64_to_dec(n as u64)),
                            ),
                        );
                    },
                    None => {
                        plan.push((String::from_str("Content-Length"), None));
                    },
                }
            },
            None => {},
        }
        plan.push((String::from_str("Content-Encoding"), None));
        plan
    }

    fn prep_service_request_body<H: Host>(&mut self, ctx: &mut H)
        requires
            old(self).wf(),
        ensures
            final(self).wf(),
            *final(self) == *old(self),
    {
        if self.do_service_request_body {
            let plan = Engine::content_header_plan(self.get_body_data(SERVICE_REQUEST_NODE));
            let n = plan.len();
            let mut k: usize = 0;
            while k < n
                invariant
                    n == plan@.len(),
                    k <= n,
                decreases n - k,
            {
                let (name, value) = &plan[k];
                let v = match value {
                    Some(s) => Some(s.clone()),
                    None => None,
                };
                ctx.set_http_request_header(name.as_str(), v);
                k = k + 1;
            }
        }
    }

    fn set_service_request_body<H: Host>(&mut self, ctx: &mut H)
        requires
            old(self).wf(),
        ensures
            final(self).wf(),
            final(self).config == old(self).config,
            final(self).data == old(self).data,
            final(self).failed == old(self).failed,
            final(self).tracing == old(self).tracing,
    {
        if self.do_service_request_body {
            let mut sent = false;
            match self.get_body_data(SERVICE_REQUEST_NODE) {
                Some(payload) => {
                    let content_type = ctx.get_http_request_header("Content-Type");
                    let ct_ref: Option<&str> = match &content_type {
                        Some(s) => Some(s.as_str()),
                        None => None,
                    };
                    match payload.to_bytes(ct_ref) {
                        Ok(bytes) => {
                            ctx.set_http_request_body(bytes);
                        },
                        Err(_) => {},
                    }
                    sent = true;
                },
                None => {},
            }
            if sent {
                self.do_service_request_body = false;
            }
        }
    }

    /// The request-headers hook: materialises the request headers into the
    /// store when wired, runs the sweep, and flushes upstream writes when no
    /// request body is expected.
    pub fn on_http_request_headers<H: Host>(&mut self, ctx: &mut H) -> (r: Action)
        requires
            old(self).wf(),
        ensures
            final(self).wf(),
            final(self).config == old(self).config,
            forall|m: int|
                4 <= m < old(self).config.graph.spec_num_nodes() && old(self).data.spec_state(m)
                    is Some ==> #[trigger] final(self).data.spec_state(m) == old(
                    self,
                ).data.spec_state(m),
            final(self).failed == (old(self).failed || newly_failed(
                old(self).data,
                final(self).data,
                old(self).config.n_implicits as int,
                old(self).config.n_nodes as int,
            )),
            (r == Action::Pause) == newly_waiting(
                old(self).data,
                final(self).data,
                old(self).config.n_implicits as int,
                old(self).config.n_nodes as int,
            ),
            !final(self).failed ==> forall|i: int|
                old(self).config.n_implicits <= i < old(self).config.n_nodes
                    ==> !final(self).data.ready(&final(self).config.graph, i, None),
    {
        if self.config.debug() {
            self.debug_init(ctx);
        }
        if self.do_request_headers {
            let vec = ctx.get_http_request_headers();
            match self.set_headers_data(ctx, REQUEST_NODE, vec) {
                Ok(()) => {},
                Err(e) => ctx.log_warn(e),
            }
        }
        let ghost d1 = self.data;
        let action = self.run_nodes(ctx, Phase::HttpRequestHeaders);
        proof {
            assert forall|m: int|
                4 <= m < old(self).config.graph.spec_num_nodes() && old(self).data.spec_state(m)
                    is Some implies #[trigger] self.data.spec_state(m) == old(self).data.spec_state(
                m,
            ) by {
                assert(d1.spec_state(m) == old(self).data.spec_state(m));
            }
            assert forall|m: int|
                old(self).config.n_implicits as int <= m < old(self).config.n_nodes as int
                    implies #[trigger] old(self).data.spec_state(m) == d1.spec_state(m) by {}
            lemma_newly_base_swap(
                old(self).data,
                d1,
                self.data,
                old(self).config.n_implicits as int,
                old(self).config.n_nodes as int,
            );
        }
        let cl = ctx.get_http_request_header("Content-Length");
        let te = ctx.get_http_request_header("Transfer-Encoding");
        let cl_none = match cl {
            Some(_) => false,
            None => true,
        };
        let te_none = match te {
            Some(_) => false,
            None => true,
        };
        if cl_none && te_none {
            self.set_service_request_headers(ctx);
        }
        self.prep_service_request_body(ctx);
        action
    }

    /// The request-body hook: decodes the body into the store at end of
    /// stream when wired, runs the sweep, and flushes upstream writes.
    pub fn on_http_request_body<H: Host>(&mut self, ctx: &mut H, eof: bool) -> (r: Action)
        requires
            old(self).wf(),
        ensures
            final(self).wf(),
            final(self).config == old(self).config,
            forall|m: int|
                4 <= m < old(self).config.graph.spec_num_nodes() && old(self).data.spec_state(m)
                    is Some ==> #[trigger] final(self).data.spec_state(m) == old(
                    self,
                ).data.spec_state(m),
            final(self).failed == (old(self).failed || newly_failed(
                old(self).data,
                final(self).data,
                old(self).config.n_implicits as int,
                old(self).config.n_nodes as int,
            )),
            (r == Action::Pause) == newly_waiting(
                old(self).data,
                final(self).data,
                old(self).config.n_implicits as int,
                old(self).config.n_nodes as int,
            ),
            !final(self).failed ==> forall|i: int|
                old(self).config.n_implicits <= i < old(self).config.n_nodes
                    ==> !final(self).data.ready(&final(self).config.graph, i, None),
    {
        if eof && self.do_request_body {
            match ctx.get_http_request_body() {
                Some(bytes) => {
                    let content_type = ctx.get_http_request_header("Content-Type");
                    let ct_ref: Option<&str> = match &content_type {
                        Some(s) => Some(s.as_str()),
                        None => None,
                    };
                    match Payload::from_bytes(bytes, ct_ref) {
                        Some(payload) => {
                            match self.set_body_data(ctx, REQUEST_NODE, payload) {
                                Ok(()) => {},
                                Err(e) => ctx.log_warn(e),
                            }
                        },
                        None => {},
                    }
                },
                None => {},
            }
        }
        let ghost d1 = self.data;
        let action = self.run_nodes(ctx, Phase::HttpRequestBody);
        proof {
            assert forall|m: int|
                4 <= m < old(self).config.graph.spec_num_nodes() && old(self).data.spec_state(m)
                    is Some implies #[trigger] self.data.spec_state(m) == old(self).data.spec_state(
                m,
            ) by {
                assert(d1.spec_state(m) == old(self).data.spec_state(m));
            }
            assert forall|m: int|
                old(self).config.n_implicits as int <= m < old(self).config.n_nodes as int
                    implies #[trigger] old(self).data.spec_state(m) == d1.spec_state(m) by {}
            lemma_newly_base_swap(
                old(self).data,
                d1,
                self.data,
                old(self).config.n_implicits as int,
                old(self).config.n_nodes as int,
            );
        }
        self.set_service_request_headers(ctx);
        self.set_service_request_body(ctx);
        action
    }

    /// The response-headers hook: materialises the upstream response headers
    /// when wired, runs the sweep, writes the response headers back out, and
    /// prepares content headers when the response body will be replaced.
    pub fn on_http_response_headers<H: Host>(&mut self, ctx: &mut H) -> (r: Action)
        requires
            old(self).wf(),
        ensures
            final(self).wf(),
            final(self).config == old(self).config,
            forall|m: int|
                4 <= m < old(self).config.graph.spec_num_nodes() && old(self).data.spec_state(m)
                    is Some ==> #[trigger] final(self).data.spec_state(m) == old(
                    self,
                ).data.spec_state(m),
            final(self).failed == (old(self).failed || newly_failed(
                old(self).data,
                final(self).data,
                old(self).config.n_implicits as int,
                old(self).config.n_nodes as int,
            )),
            (r == Action::Pause) == newly_waiting(
                old(self).data,
                final(self).data,
                old(self).config.n_implicits as int,
                old(self).config.n_nodes as int,
            ),
            !final(self).failed ==> forall|i: int|
                old(self).config.n_implicits <= i < old(self).config.n_nodes
                    ==> !final(self).data.ready(&final(self).config.graph, i, None),
    {
        if self.do_service_response_headers {
            let vec = ctx.get_http_response_headers();
            match self.set_headers_data(ctx, SERVICE_RESPONSE_NODE, vec) {
                Ok(()) => {},
                Err(e) => ctx.log_warn(e),
            }
        }
        let ghost d1 = self.data;
        let action = self.run_nodes(ctx, Phase::HttpResponseHeaders);
        proof {
            assert forall|m: int|
                4 <= m < old(self).config.graph.spec_num_nodes() && old(self).data.spec_state(m)
                    is Some implies #[trigger] self.data.spec_state(m) == old(self).data.spec_state(
                m,
            ) by {
                assert(d1.spec_state(m) == old(self).data.spec_state(m));
            }
            assert forall|m: int|
                old(self).config.n_implicits as int <= m < old(self).config.n_nodes as int
                    implies #[trigger] old(self).data.spec_state(m) == d1.spec_state(m) by {}
            lemma_newly_base_swap(
                old(self).data,
                d1,
                self.data,
                old(self).config.n_implicits as int,
                old(self).config.n_nodes as int,
            );
        }
        if self.do_response_headers {
            match self.get_headers_data(RESPONSE_NODE) {
                Some(payload) => {
                    let headers = payload.to_pwm_headers();
                    ctx.set_http_response_headers(headers);
                },
                None => {},
            }
        }
        if self.do_response_body {
            let plan = Engine::content_header_plan(self.get_body_data(RESPONSE_NODE));
            let n = plan.len();
            let mut k: usize = 0;
            while k < n
                invariant
                    n == plan@.len(),
                    k <= n,
                decreases n - k,
            {
                let (name, value) = &plan[k];
                let v = match value {
                    Some(s) => Some(s.clone()),
                    None => None,
                };
                ctx.set_http_response_header(name.as_str(), v);
                k = k + 1;
            }
        }
        if self.config.debug() {
            self.debug_done_headers(ctx);
        }
        action
    }

    /// The response-body hook: at end of stream, materialises the upstream
    /// body when wired, runs the sweep, writes the replacement body out, and
    /// renders the trace when tracing.
    pub fn on_http_response_body<H: Host>(&mut self, ctx: &mut H, eof: bool) -> (r: Action)
        requires
            old(self).wf(),
        ensures
            final(self).wf(),
            final(self).config == old(self).config,
            forall|m: int|
                4 <= m < old(self).config.graph.spec_num_nodes() && old(self).data.spec_state(m)
                    is Some ==> #[trigger] final(self).data.spec_state(m) == old(
                    self,
                ).data.spec_state(m),
            !eof ==> r == Action::Pause && *final(self) == *old(self),
            eof ==> final(self).failed == (old(self).failed || newly_failed(
                old(self).data,
                final(self).data,
                old(self).config.n_implicits as int,
                old(self).config.n_nodes as int,
            )),
            eof ==> ((r == Action::Pause) == newly_waiting(
                old(self).data,
                final(self).data,
                old(self).config.n_implicits as int,
                old(self).config.n_nodes as int,
            )),
            (eof && !final(self).failed && !final(self).tracing) ==> forall|i: int|
                old(self).config.n_implicits <= i < old(self).config.n_nodes
                    ==> !final(self).data.ready(&final(self).config.graph, i, None),
    {
        if !eof {
            return Action::Pause;
        }
        if self.do_service_response_body {
            match ctx.get_http_response_body() {
                Some(bytes) => {
                    let content_type = ctx.get_http_response_header("Content-Type");
                    let ct_ref: Option<&str> = match &content_type {
                        Some(s) => Some(s.as_str()),
                        None => None,
                    };
                    match Payload::from_bytes(bytes, ct_ref) {
                        Some(payload) => {
                            match self.set_body_data(ctx, SERVICE_RESPONSE_NODE, payload) {
                                Ok(()) => {},
                                Err(e) => ctx.log_warn(e),
                            }
                        },
                        None => {},
                    }
                },
                None => {},
            }
        }
        let ghost d1 = self.data;
        let action = self.run_nodes(ctx, Phase::HttpResponseBody);
        proof {
            assert forall|m: int|
                4 <= m < old(self).config.graph.spec_num_nodes() && old(self).data.spec_state(m)
                    is Some implies #[trigger] self.data.spec_state(m) == old(self).data.spec_state(
                m,
            ) by {
                assert(d1.spec_state(m) == old(self).data.spec_state(m));
            }
            assert forall|m: int|
                old(self).config.n_implicits as int <= m < old(self).config.n_nodes as int
                    implies #[trigger] old(self).data.spec_state(m) == d1.spec_state(m) by {}
            lemma_newly_base_swap(
                old(self).data,
                d1,
                self.data,
                old(self).config.n_implicits as int,
                old(self).config.n_nodes as int,
            );
        }
        let ghost d2 = self.data;
        if self.do_response_body {
            let mut had_payload = false;
            match self.get_body_data(RESPONSE_NODE) {
                Some(payload) => {
                    had_payload = true;
                    let content_type = ctx.get_http_response_header("Content-Type");
                    let ct_ref: Option<&str> = match &content_type {
                        Some(s) => Some(s.as_str()),
                        None => None,
                    };
                    match payload.to_bytes(ct_ref) {
                        Ok(bytes) => {
                            ctx.set_http_response_body(bytes);
                        },
                        Err(_) => {
                            ctx.set_http_response_body(Vec::new());
                        },
                    }
                },
                None => {},
            }
            if !had_payload && self.tracing {
                match ctx.get_http_response_body() {
                    Some(bytes) => {
                        let ct_ref: Option<&str> = match &self.saved_response_ct {
                            Some(s) => Some(s.as_str()),
                            None => None,
                        };
                        match Payload::from_bytes(bytes, ct_ref) {
                            Some(payload) => {
                                match self.set_body_data(ctx, RESPONSE_NODE, payload) {
                                Ok(()) => {},
                                Err(e) => ctx.log_warn(e),
                            }
                            },
                            None => {},
                        }
                    },
                    None => {},
                }
            }
        }
        proof {
            assert forall|m: int|
                old(self).config.n_implicits as int <= m < old(self).config.n_nodes as int
                    implies #[trigger] self.data.spec_state(m) == d2.spec_state(m) by {}
            lemma_newly_state_swap(
                old(self).data,
                d2,
                self.data,
                old(self).config.n_implicits as int,
                old(self).config.n_nodes as int,
            );
        }
        if self.config.debug() {
            self.debug_done(ctx);
        }
        action
    }
}

/// Builds an engine from raw configuration bytes over the standard implicit
/// nodes; a rejected configuration reports its error.
pub fn engine_from_bytes(config_bytes: Vec<u8>) -> (r: Result<Engine, String>)
    ensures
        match r {
            Ok(engine) => engine.wf() && !engine.failed,
            Err(_) => true,
        },
{
    let implicits = crate::config::standard_implicits();
    let config = match Config::new(config_bytes, &implicits) {
        Ok(c) => c,
        Err(e) => {
            return Err(e);
        },
    };
    proof {
        assert(config.graph.spec_input_names(1) == implicits@[1].inputs@);
        assert(config.graph.spec_input_names(3) == implicits@[3].inputs@);
        assert(config.graph.spec_output_names(0) == implicits@[0].outputs@);
        assert(config.graph.spec_output_names(1) == implicits@[1].outputs@);
        assert(config.graph.spec_output_names(2) == implicits@[2].outputs@);
        assert(config.graph.spec_output_names(3) == implicits@[3].outputs@);
        assert(config.graph.spec_num_inputs(1) == implicits@[1].inputs@.len());
        assert(config.graph.spec_num_inputs(3) == implicits@[3].inputs@.len());
        assert(config.graph.spec_num_outputs(0) == implicits@[0].outputs@.len());
        assert(config.graph.spec_num_outputs(1) == implicits@[1].outputs@.len());
        assert(config.graph.spec_num_outputs(2) == implicits@[2].outputs@.len());
        assert(config.graph.spec_num_outputs(3) == implicits@[3].outputs@.len());
        assert(engine_config_shape(config));
    }
    Ok(Engine::new(config))
}

} // verus!
