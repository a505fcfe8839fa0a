//! The per-request store: each node's execution state and the payloads it
//! produced on its output ports, with the readiness query the scheduler
//! drives on.
//!
//! A port holds at most one payload per request: once set, a payload is
//! never overwritten, and a second fill of the same port is refused.

use crate::dependency_graph::DependencyGraph;
use crate::payload::Payload;
use vstd::prelude::*;

verus! {

/// The lifecycle stage a run happens in.
#[derive(PartialEq, Eq, Structural, Clone, Copy, Debug)]
pub enum Phase {
    HttpRequestHeaders,
    HttpRequestBody,
    HttpResponseHeaders,
    HttpResponseBody,
    HttpCallResponse,
}

/// What a node sees when it runs: one optional payload per input port, and
/// the current phase.
pub struct Input<'a> {
    pub data: Vec<Option<&'a Payload>>,
    pub phase: Phase,
}

/// A node's recorded state: awaiting an external completion, or terminal
/// with one optional payload per output port.
#[derive(Debug, PartialEq, Eq)]
pub enum State {
    Waiting(u32),
    Done(Vec<Option<Payload>>),
    Fail(Vec<Option<Payload>>),
}

pub struct Data {
    pub states: Vec<Option<State>>,
}

/// Whether an option holding a reference mirrors an option holding a value.
pub open spec fn opt_ref_eq(a: Option<&Payload>, b: Option<Payload>) -> bool {
    match (a, b) {
        (Some(x), Some(y)) => *x == y,
        (None, None) => true,
        _ => false,
    }
}

impl Data {
    /// The store tracks one state slot per graph node.
    pub open spec fn wf(&self, g: &DependencyGraph) -> bool {
        &&& g.wf()
        &&& self.states@.len() == g.spec_num_nodes()
    }

    pub open spec fn spec_state(&self, n: int) -> Option<State> {
        self.states@[n]
    }

    /// The payload a node holds at an output port, if it is terminal and the
    /// port slot exists and is set.
    pub open spec fn payload_at(&self, n: int, p: int) -> Option<Payload> {
        match self.states@[n] {
            Some(State::Done(ports)) => if 0 <= p < ports@.len() {
                ports@[p]
            } else {
                None
            },
            Some(State::Fail(ports)) => if 0 <= p < ports@.len() {
                ports@[p]
            } else {
                None
            },
            _ => None,
        }
    }

    /// Whether a node's state permits (re)triggering: never run is yes,
    /// terminal is no, waiting only on the matching token.
    pub open spec fn spec_can_trigger(&self, n: int, waiting: Option<u32>) -> bool {
        match self.states@[n] {
            None => true,
            Some(State::Done(_)) => false,
            Some(State::Fail(_)) => false,
            Some(State::Waiting(w)) => waiting == Some(w),
        }
    }

    /// Whether input port `p` of node `n` is satisfied: unlinked, or its
    /// provider is `Done` with a payload in the linked slot.
    pub open spec fn provider_ready(&self, g: &DependencyGraph, n: int, p: int) -> bool {
        match g.spec_provider(n, p) {
            None => true,
            Some(e) => match self.states@[e.0 as int] {
                Some(State::Done(ports)) => e.1 < ports@.len() && ports@[e.1 as int] is Some,
                _ => false,
            },
        }
    }

    /// The payload input port `p` of node `n` observes, if its provider is
    /// `Done` and holds one.
    pub open spec fn input_payload(&self, g: &DependencyGraph, n: int, p: int) -> Option<Payload> {
        match g.spec_provider(n, p) {
            None => None,
            Some(e) => match self.states@[e.0 as int] {
                Some(State::Done(ports)) => if e.1 < ports@.len() {
                    ports@[e.1 as int]
                } else {
                    None
                },
                _ => None,
            },
        }
    }

    /// The readiness predicate: the state permits triggering and every input
    /// port is satisfied.
    pub open spec fn ready(&self, g: &DependencyGraph, n: int, waiting: Option<u32>) -> bool {
        &&& self.spec_can_trigger(n, waiting)
        &&& forall|p: int| 0 <= p < g.spec_num_inputs(n) ==> self.provider_ready(g, n, p)
    }

    /// An empty store for the graph: no node has a state yet.
    pub fn new(g: &DependencyGraph) -> (r: Data)
        requires
            g.wf(),
        ensures
            r.wf(g),
            forall|n: int| 0 <= n < g.spec_num_nodes() ==> #[trigger] r.spec_state(n) is None,
    {
        let n = g.number_of_nodes();
        let mut states: Vec<Option<State>> = Vec::new();
        for i in 0..n
            invariant
                states@.len() == i,
                forall|k: int| 0 <= k < i ==> #[trigger] states@[k] is None,
        {
            states.push(None);
        }
        Data { states }
    }

    /// Unconditionally records a node's state, as the driver does after a
    /// run or resume.
    pub fn set(&mut self, node: usize, state: State)
        requires
            node < old(self).states@.len(),
        ensures
            final(self).states@ == old(self).states@.update(node as int, Some(state)),
    {
        self.states[node] = Some(state);
    }

    /// The node's recorded state, or an error when none was created yet.
    pub fn get_state(&self, node: usize) -> (r: Result<&State, &'static str>)
        requires
            node < self.states@.len(),
        ensures
            match r {
                Ok(s) => self.spec_state(node as int) == Some(*s),
                Err(_) => self.spec_state(node as int) is None,
            },
    {
        match &self.states[node] {
            None => Err("fill_port must have created a state"),
            Some(state) => Ok(state),
        }
    }

    /// Whether a fill of `(node, port)` would be refused: the node is
    /// waiting, or the slot is already set or absent.
    pub open spec fn fill_refused(&self, n: int, p: int) -> bool {
        match self.states@[n] {
            None => false,
            Some(State::Waiting(_)) => true,
            Some(State::Done(ports)) => !(0 <= p < ports@.len() && ports@[p] is None),
            Some(State::Fail(ports)) => !(0 <= p < ports@.len() && ports@[p] is None),
        }
    }

    /// Fills one output port of a node from outside, as the implicit-node
    /// plumbing does.  Creates a fresh `Done` state when none exists; sets
    /// an unset slot of a terminal state; refuses to overwrite a set slot or
    /// to touch a waiting node.
    pub fn fill_port(&mut self, g: &DependencyGraph, node: usize, port: usize, payload: Payload) -> (r: Result<
        (),
        &'static str,
    >)
        requires
            old(self).wf(g),
            node < old(self).states@.len(),
            port < g.spec_num_outputs(node as int),
        ensures
            final(self).wf(g),
            forall|m: int|
                0 <= m < old(self).states@.len() && m != node ==> #[trigger] final(self).spec_state(
                    m,
                ) == old(self).spec_state(m),
            match r {
                Ok(()) => {
                    &&& !old(self).fill_refused(node as int, port as int)
                    &&& final(self).payload_at(node as int, port as int) == Some(payload)
                    &&& forall|q: int|
                        0 <= q < g.spec_num_outputs(node as int) && q != port
                            ==> #[trigger] final(self).payload_at(node as int, q)
                                == old(self).payload_at(node as int, q)
                    &&& (old(self).spec_state(node as int) is None ==> (final(self).spec_state(
                        node as int,
                    ) matches Some(State::Done(ports)) && ports@.len() == g.spec_num_outputs(
                        node as int,
                    )))
                    &&& (old(self).spec_state(node as int) matches Some(State::Done(_))
                        ==> final(self).spec_state(node as int) matches Some(State::Done(_)))
                    &&& (old(self).spec_state(node as int) matches Some(State::Fail(_))
                        ==> final(self).spec_state(node as int) matches Some(State::Fail(_)))
                },
                Err(msg) => {
                    &&& old(self).fill_refused(node as int, port as int)
                    &&& *final(self) == *old(self)
                    &&& (old(self).spec_state(node as int) matches Some(State::Waiting(_)) ==> msg@
                        == "cannot force payload on a waiting node"@)
                    &&& (!(old(self).spec_state(node as int) matches Some(State::Waiting(_)))
                        ==> msg@ == "cannot overwrite a payload"@)
                },
            },
    {
        let n_outputs = g.number_of_outputs(node);
        match &self.states[node] {
            None => {
                let mut ports: Vec<Option<Payload>> = Vec::new();
                for q in 0..n_outputs
                    invariant
                        ports@.len() == q,
                        forall|t: int| 0 <= t < q ==> #[trigger] ports@[t] is None,
                {
                    ports.push(None);
                }
                ports[port] = Some(payload);
                let state = State::Done(ports);
                self.states[node] = Some(state);
                proof {
                    assert(self.states@ =~= old(self).states@.update(
                        node as int,
                        self.states@[node as int],
                    ));
                }
                Ok(())
            },
            Some(State::Waiting(_)) => Err("cannot force payload on a waiting node"),
            Some(State::Done(ports0)) => {
                if port < ports0.len() {
                    let slot_empty = ports0[port].is_none();
                    if slot_empty {
                        let state_ref = &mut self.states[node];
                        match state_ref {
                            Some(State::Done(ports)) => {
                                ports[port] = Some(payload);
                            },
                            _ => {
                                proof {
                                    assert(false);
                                }
                            },
                        }
                        proof {
                            assert(self.states@ =~= old(self).states@.update(
                                node as int,
                                self.states@[node as int],
                            ));
                        }
                        Ok(())
                    } else {
                        Err("cannot overwrite a payload")
                    }
                } else {
                    Err("cannot overwrite a payload")
                }
            },
            Some(State::Fail(ports0)) => {
                if port < ports0.len() {
                    let slot_empty = ports0[port].is_none();
                    if slot_empty {
                        let state_ref = &mut self.states[node];
                        match state_ref {
                            Some(State::Fail(ports)) => {
                                ports[port] = Some(payload);
                            },
                            _ => {
                                proof {
                                    assert(false);
                                }
                            },
                        }
                        proof {
                            assert(self.states@ =~= old(self).states@.update(
                                node as int,
                                self.states@[node as int],
                            ));
                        }
                        Ok(())
                    } else {
                        Err("cannot overwrite a payload")
                    }
                } else {
                    Err("cannot overwrite a payload")
                }
            },
        }
    }

    /// Follows the graph's provider pointer of an input port and returns the
    /// payload at the source's output port, from a `Done` or `Fail` state.
    pub fn fetch_port(&self, g: &DependencyGraph, node: usize, port: usize) -> (r: Option<&Payload>)
        requires
            self.wf(g),
            node < g.spec_num_nodes(),
            port < g.spec_num_inputs(node as int),
        ensures
            opt_ref_eq(r, self.fetched(g, node as int, port as int)),
    {
        match g.get_provider(node, port) {
            Some((n, p)) => match &self.states[n] {
                Some(State::Waiting(_)) => None,
                Some(State::Done(ports)) => match ports.get(p) {
                    Some(Some(payload)) => Some(payload),
                    _ => None,
                },
                Some(State::Fail(ports)) => match ports.get(p) {
                    Some(Some(payload)) => Some(payload),
                    _ => None,
                },
                None => None,
            },
            None => None,
        }
    }

    /// What `fetch_port` yields: the provider's payload, also from a failed
    /// node.
    pub open spec fn fetched(&self, g: &DependencyGraph, n: int, p: int) -> Option<Payload> {
        match g.spec_provider(n, p) {
            None => None,
            Some(e) => self.payload_at(e.0 as int, e.1 as int),
        }
    }

    fn can_trigger(&self, i: usize, waiting: Option<u32>) -> (r: bool)
        requires
            i < self.states@.len(),
        ensures
            r == self.spec_can_trigger(i as int, waiting),
    {
        match &self.states[i] {
            None => true,
            Some(state) => match state {
                State::Done(_) => false,
                State::Fail(_) => false,
                State::Waiting(w) => match &waiting {
                    Some(id) => *w == *id,
                    None => false,
                },
            },
        }
    }

    /// The readiness query and input materialiser: `Some` exactly when the
    /// node can trigger and every linked input has a payload available, with
    /// one entry per input port.
    pub fn get_inputs_for<'a>(&'a self, g: &DependencyGraph, node: usize, waiting: Option<u32>) -> (r:
        Option<Vec<Option<&'a Payload>>>)
        requires
            self.wf(g),
            node < g.spec_num_nodes(),
        ensures
            match r {
                None => !self.ready(g, node as int, waiting),
                Some(v) => {
                    &&& self.ready(g, node as int, waiting)
                    &&& v@.len() == g.spec_num_inputs(node as int)
                    &&& forall|p: int|
                        0 <= p < v@.len() ==> opt_ref_eq(
                            #[trigger] v@[p],
                            self.input_payload(g, node as int, p),
                        )
                },
            },
    {
        if !self.can_trigger(node, waiting) {
            return None;
        }
        let n_inputs = g.number_of_inputs(node);
        let mut v: Vec<Option<&'a Payload>> = Vec::new();
        for p in 0..n_inputs
            invariant
                self.wf(g),
                node < g.spec_num_nodes(),
                n_inputs == g.spec_num_inputs(node as int),
                v@.len() == p,
                self.spec_can_trigger(node as int, waiting),
                forall|q: int| 0 <= q < p ==> self.provider_ready(g, node as int, q),
                forall|q: int|
                    0 <= q < p ==> opt_ref_eq(
                        #[trigger] v@[q],
                        self.input_payload(g, node as int, q),
                    ),
        {
            match g.get_provider(node, p) {
                Some((m, q)) => match &self.states[m] {
                    Some(State::Done(ports)) => match ports.get(q) {
                        Some(Some(payload)) => {
                            v.push(Some(payload));
                        },
                        _ => {
                            proof {
                                assert(!self.provider_ready(g, node as int, p as int));
                            }
                            return None;
                        },
                    },
                    _ => {
                        proof {
                            assert(!self.provider_ready(g, node as int, p as int));
                        }
                        return None;
                    },
                },
                None => {
                    v.push(None);
                },
            }
        }
        Some(v)
    }
}

/// A terminal node keeps every set payload: what a later store may add can
/// only fill further slots elsewhere.
pub open spec fn done_extends(s1: Option<State>, s2: Option<State>) -> bool {
    match s1 {
        Some(State::Done(p1)) => s2 matches Some(State::Done(p2)) && p2@.len() == p1@.len() && (
        forall|q: int| 0 <= q < p1@.len() && p1@[q] is Some ==> p2@[q] == p1@[q]),
        _ => true,
    }
}

/// Readiness is monotonic: once a node is ready, new `Done` payloads
/// appearing upstream cannot make it unready, as long as the node itself has
/// not transitioned.
pub proof fn lemma_readiness_monotonic(
    d1: Data,
    d2: Data,
    g: &DependencyGraph,
    n: int,
    waiting: Option<u32>,
)
    requires
        d1.wf(g),
        d2.wf(g),
        0 <= n < g.spec_num_nodes(),
        d2.spec_state(n) == d1.spec_state(n),
        forall|m: int|
            0 <= m < g.spec_num_nodes() ==> done_extends(
                #[trigger] d1.spec_state(m),
                d2.spec_state(m),
            ),
        d1.ready(g, n, waiting),
    ensures
        d2.ready(g, n, waiting),
{
    assert forall|p: int| 0 <= p < g.spec_num_inputs(n) implies d2.provider_ready(g, n, p) by {
        assert(d1.provider_ready(g, n, p));
        match g.spec_provider(n, p) {
            None => {},
            Some(e) => {
                assert(done_extends(d1.spec_state(e.0 as int), d2.spec_state(e.0 as int)));
            },
        }
    }
}

/// How many nodes in `[from, to)` have no recorded state yet.
pub open spec fn count_unstarted(d: Data, from: int, to: int) -> int
    decreases to - from,
{
    if from >= to {
        0
    } else {
        (if d.spec_state(from) is None {
            1int
        } else {
            0int
        }) + count_unstarted(d, from + 1, to)
    }
}

/// The count is bounded by the window.
pub proof fn lemma_count_unstarted_bounds(d: Data, from: int, to: int)
    ensures
        0 <= count_unstarted(d, from, to),
        from <= to ==> count_unstarted(d, from, to) <= to - from,
    decreases to - from,
{
    if from < to {
        lemma_count_unstarted_bounds(d, from + 1, to);
    }
}

/// Recording a state for an unstarted node lowers the count by one when the
/// node lies in the window, else leaves it unchanged.
pub proof fn lemma_count_unstarted_update(d1: Data, d2: Data, from: int, to: int, i: int)
    requires
        forall|m: int|
            from <= m < to && m != i ==> #[trigger] d2.spec_state(m) == d1.spec_state(m),
        d1.spec_state(i) is None,
        d2.spec_state(i) is Some,
    ensures
        count_unstarted(d2, from, to) == count_unstarted(d1, from, to) - (if from <= i < to {
            1int
        } else {
            0int
        }),
    decreases to - from,
{
    if from < to {
        lemma_count_unstarted_update(d1, d2, from + 1, to, i);
    }
}

/// A node that reached a terminal state is never ready again, whatever
/// token arrives: the scheduler, which runs only ready nodes, runs and
/// resumes each node at most once per request.
pub proof fn lemma_terminal_never_ready(
    d: Data,
    g: &DependencyGraph,
    n: int,
    waiting: Option<u32>,
)
    requires
        d.spec_state(n) matches Some(s) && (s matches State::Done(_) || s matches State::Fail(_)),
    ensures
        !d.ready(g, n, waiting),
{
}

/// A waiting node resumes only on its own token: readiness under a token
/// demands the node wait on exactly that token.
pub proof fn lemma_resume_needs_matching_token(d: Data, g: &DependencyGraph, n: int, t: u32)
    requires
        d.ready(g, n, Some(t)),
        d.spec_state(n) is Some,
    ensures
        d.spec_state(n) == Some(State::Waiting(t)),
{
}

/// A port is filled at most once: after a fill of `(n, p)` succeeds, any
/// further fill of the same port is refused, whatever payload it brings.
pub proof fn lemma_single_assignment(d2: Data, n: int, p: int)
    requires
        d2.payload_at(n, p) is Some,
    ensures
        d2.fill_refused(n, p),
{
}

} // verus!
