//! The dependency graph: indexed provider/dependent tables keyed by
//! `(node, port)`.
//!
//! Every entry of `providers`, when set, refers to an existing output port;
//! an input port has at most one provider, while an output port may fan out
//! to many inputs.

use crate::util::str_eq;
use vstd::prelude::*;
use vstd::string::StringExecFns;

verus! {

#[derive(Debug)]
pub struct DependencyGraph {
    pub node_names: Vec<String>,
    pub input_names: Vec<Vec<String>>,
    pub output_names: Vec<Vec<String>>,
    pub dependents: Vec<Vec<Vec<(usize, usize)>>>,
    pub providers: Vec<Vec<Option<(usize, usize)>>>,
}

/// The first index at which `names` holds a string that reads `name`.
pub open spec fn str_position(names: Seq<String>, name: Seq<char>) -> Option<int> {
    if exists|i: int| 0 <= i < names.len() && names[i]@ == name {
        Some(
            choose|i: int|
                0 <= i < names.len() && names[i]@ == name && (forall|k: int|
                    0 <= k < i ==> names[k]@ != name),
        )
    } else {
        None
    }
}

/// Linear search for `name`, returning the first matching index.
pub fn position_of(names: &Vec<String>, name: &str) -> (r: Option<usize>)
    ensures
        match r {
            Some(i) => 0 <= i < names@.len() && names@[i as int]@ == name@ && str_position(
                names@,
                name@,
            ) == Some(i as int),
            None => str_position(names@, name@) is None,
        },
{
    let n = names.len();
    for i in 0..n
        invariant
            n == names@.len(),
            forall|k: int| 0 <= k < i ==> names@[k]@ != name@,
    {
        if str_eq(names[i].as_str(), name) {
            return Some(i);
        }
    }
    None
}

/// Locates `(node, port)` by linear name search in the given tables.  The
/// names must be registered there; unknown names are a programmer error and
/// are excluded up front.
pub fn find(node: &str, port: &str, node_names: &Vec<String>, port_names: &Vec<Vec<String>>) -> (r:
    (usize, usize))
    requires
        str_position(node_names@, node@) is Some,
        ({
            let n = str_position(node_names@, node@)->Some_0;
            &&& n < port_names@.len()
            &&& str_position(port_names@[n]@, port@) is Some
        }),
    ensures
        Some(r.0 as int) == str_position(node_names@, node@),
        Some(r.1 as int) == str_position(port_names@[r.0 as int]@, port@),
{
    let n = match position_of(node_names, node) {
        Some(n) => n,
        None => {
            proof {
                assert(false);
            }
            0
        },
    };
    let p = match position_of(&port_names[n], port) {
        Some(p) => p,
        None => {
            proof {
                assert(false);
            }
            0
        },
    };
    (n, p)
}

/// What a `str_position` result means about the searched table.
pub proof fn lemma_str_position(names: Seq<String>, name: Seq<char>)
    ensures
        match str_position(names, name) {
            Some(i) => 0 <= i < names.len() && names[i]@ == name && (forall|k: int|
                0 <= k < i ==> names[k]@ != name),
            None => forall|k: int| 0 <= k < names.len() ==> names[k]@ != name,
        },
{
    if exists|i: int| 0 <= i < names.len() && names[i]@ == name {
        let w = choose|i: int| 0 <= i < names.len() && names[i]@ == name;
        lemma_first_match_exists(names, name, w);
    }
}

proof fn lemma_first_match_exists(names: Seq<String>, name: Seq<char>, w: int)
    requires
        0 <= w < names.len(),
        names[w]@ == name,
    ensures
        exists|i: int|
            0 <= i < names.len() && names[i]@ == name && (forall|k: int|
                0 <= k < i ==> names[k]@ != name),
    decreases w,
{
    if forall|k: int| 0 <= k < w ==> names[k]@ != name {
        assert(0 <= w < names.len() && names[w]@ == name && (forall|k: int|
            0 <= k < w ==> names[k]@ != name));
    } else {
        let w2 = choose|k: int| 0 <= k < w && names[k]@ == name;
        lemma_first_match_exists(names, name, w2);
    }
}

/// The text `a.b is already connected to c.d`.
pub open spec fn already_connected_msg(a: Seq<char>, b: Seq<char>, c: Seq<char>, d: Seq<char>) -> Seq<
    char,
> {
    a + "."@ + b + " is already connected to "@ + c + "."@ + d
}

impl DependencyGraph {
    pub open spec fn spec_num_nodes(&self) -> int {
        self.node_names@.len() as int
    }

    pub open spec fn node_name(&self, n: int) -> Seq<char> {
        self.node_names@[n]@
    }

    pub open spec fn spec_node_names(&self) -> Seq<String> {
        self.node_names@
    }

    pub open spec fn spec_input_names(&self, n: int) -> Seq<String> {
        self.input_names@[n]@
    }

    pub open spec fn spec_output_names(&self, n: int) -> Seq<String> {
        self.output_names@[n]@
    }

    pub open spec fn spec_num_inputs(&self, n: int) -> int {
        self.input_names@[n]@.len() as int
    }

    pub open spec fn spec_num_outputs(&self, n: int) -> int {
        self.output_names@[n]@.len() as int
    }

    pub open spec fn spec_provider(&self, n: int, p: int) -> Option<(usize, usize)> {
        self.providers@[n]@[p]
    }

    pub open spec fn spec_dependents(&self, n: int, p: int) -> Seq<(usize, usize)> {
        self.dependents@[n]@[p]@
    }

    /// Table shapes line up and every link endpoint refers to an existing
    /// port.
    pub open spec fn wf(&self) -> bool {
        let n = self.spec_num_nodes();
        &&& self.input_names@.len() == n
        &&& self.output_names@.len() == n
        &&& self.providers@.len() == n
        &&& self.dependents@.len() == n
        &&& forall|i: int|
            0 <= i < n ==> #[trigger] self.providers@[i]@.len() == self.input_names@[i]@.len()
        &&& forall|i: int|
            0 <= i < n ==> #[trigger] self.dependents@[i]@.len() == self.output_names@[i]@.len()
        &&& forall|i: int, p: int|
            0 <= i < n && 0 <= p < self.spec_num_inputs(i) ==> match #[trigger] self.spec_provider(
                i,
                p,
            ) {
                Some(e) => e.0 < n && e.1 < self.spec_num_outputs(e.0 as int),
                None => true,
            }
        &&& forall|i: int, p: int, j: int|
            0 <= i < n && 0 <= p < self.spec_num_outputs(i) && 0 <= j < self.spec_dependents(
                i,
                p,
            ).len() ==> {
                let e = #[trigger] self.spec_dependents(i, p)[j];
                e.0 < n && e.1 < self.spec_num_inputs(e.0 as int)
            }
    }

    /// Allocates a graph with no provider set and every dependents list
    /// empty.
    pub fn new(node_names: Vec<String>, input_names: Vec<Vec<String>>, output_names: Vec<Vec<String>>) -> (r:
        DependencyGraph)
        requires
            input_names@.len() == node_names@.len(),
            output_names@.len() == node_names@.len(),
        ensures
            r.wf(),
            r.spec_node_names() == node_names@,
            r.input_names@ == input_names@,
            r.output_names@ == output_names@,
            forall|i: int, p: int|
                0 <= i < r.spec_num_nodes() && 0 <= p < r.spec_num_inputs(i)
                    ==> #[trigger] r.spec_provider(i, p) is None,
            forall|i: int, p: int|
                0 <= i < r.spec_num_nodes() && 0 <= p < r.spec_num_outputs(i)
                    ==> #[trigger] r.spec_dependents(i, p).len() == 0,
    {
        let n = node_names.len();
        let mut providers: Vec<Vec<Option<(usize, usize)>>> = Vec::new();
        for i in 0..n
            invariant
                n == node_names@.len(),
                input_names@.len() == n,
                providers@.len() == i,
                forall|k: int|
                    0 <= k < i ==> #[trigger] providers@[k]@.len() == input_names@[k]@.len(),
                forall|k: int, p: int|
                    0 <= k < i && 0 <= p < providers@[k]@.len() ==> #[trigger] providers@[k]@[p]
                        is None,
        {
            let np = input_names[i].len();
            let mut ports: Vec<Option<(usize, usize)>> = Vec::new();
            for q in 0..np
                invariant
                    ports@.len() == q,
                    forall|t: int| 0 <= t < q ==> #[trigger] ports@[t] is None,
            {
                ports.push(None);
            }
            providers.push(ports);
        }
        let mut dependents: Vec<Vec<Vec<(usize, usize)>>> = Vec::new();
        for i in 0..n
            invariant
                n == node_names@.len(),
                output_names@.len() == n,
                dependents@.len() == i,
                forall|k: int|
                    0 <= k < i ==> #[trigger] dependents@[k]@.len() == output_names@[k]@.len(),
                forall|k: int, p: int|
                    0 <= k < i && 0 <= p < dependents@[k]@.len() ==> #[trigger] dependents@[k]@[p]@
                        =~= Seq::<(usize, usize)>::empty(),
        {
            let np = output_names[i].len();
            let mut lists: Vec<Vec<(usize, usize)>> = Vec::new();
            for q in 0..np
                invariant
                    lists@.len() == q,
                    forall|t: int|
                        0 <= t < q ==> #[trigger] lists@[t]@ =~= Seq::<(usize, usize)>::empty(),
            {
                lists.push(Vec::new());
            }
            dependents.push(lists);
        }
        DependencyGraph { node_names, input_names, output_names, dependents, providers }
    }

    pub fn get_node_name(&self, i: usize) -> (r: Option<&str>)
        ensures
            match r {
                Some(s) => i < self.spec_num_nodes() && s@ == self.node_name(i as int),
                None => i >= self.spec_num_nodes(),
            },
    {
        if i < self.node_names.len() {
            Some(self.node_names[i].as_str())
        } else {
            None
        }
    }

    pub fn number_of_nodes(&self) -> (r: usize)
        ensures
            r == self.spec_num_nodes(),
    {
        self.node_names.len()
    }

    pub fn number_of_outputs(&self, node: usize) -> (r: usize)
        requires
            node < self.spec_num_nodes(),
            self.output_names@.len() == self.spec_num_nodes(),
        ensures
            r == self.spec_num_outputs(node as int),
    {
        self.output_names[node].len()
    }

    pub fn number_of_inputs(&self, node: usize) -> (r: usize)
        requires
            node < self.spec_num_nodes(),
            self.input_names@.len() == self.spec_num_nodes(),
        ensures
            r == self.spec_num_inputs(node as int),
    {
        self.input_names[node].len()
    }

    fn add_dependent(&mut self, node: usize, port: usize, entry: (usize, usize))
        requires
            old(self).wf(),
            node < old(self).spec_num_nodes(),
            port < old(self).spec_num_outputs(node as int),
            entry.0 < old(self).spec_num_nodes(),
            entry.1 < old(self).spec_num_inputs(entry.0 as int),
        ensures
            final(self).wf(),
            final(self).node_names == old(self).node_names,
            final(self).input_names == old(self).input_names,
            final(self).output_names == old(self).output_names,
            final(self).providers == old(self).providers,
            final(self).spec_dependents(node as int, port as int) == old(self).spec_dependents(
                node as int,
                port as int,
            ).push(entry),
            forall|i: int, p: int|
                0 <= i < old(self).spec_num_nodes()
                    && 0 <= p < old(self).spec_num_outputs(i)
                    && !(i == node && p == port)
                    ==> #[trigger] final(self).spec_dependents(i, p)
                        == old(self).spec_dependents(i, p),
    {
        let port_list = &mut self.dependents[node];
        let entries_list = &mut port_list[port];
        entries_list.push(entry);
        proof {
            let g0 = *old(self);
            let g1 = *self;
            assert(g1.dependents@ =~= g0.dependents@.update(
                node as int,
                g0.dependents@[node as int],
            ).update(node as int, g1.dependents@[node as int]));
            assert(g1.dependents@[node as int]@ =~= g0.dependents@[node as int]@.update(
                port as int,
                g1.dependents@[node as int]@[port as int],
            ));
            assert forall|i: int, p: int|
                0 <= i < g0.spec_num_nodes() && 0 <= p < g0.spec_num_outputs(i) && !(i == node && p
                    == port) implies #[trigger] g1.spec_dependents(i, p) == g0.spec_dependents(
                i,
                p,
            ) by {
                if i != node {
                    assert(g1.dependents@[i] == g0.dependents@[i]);
                } else {
                    assert(g1.dependents@[i]@[p] == g0.dependents@[i]@[p]);
                }
            }
            assert forall|i: int, p: int, j: int|
                0 <= i < g1.spec_num_nodes() && 0 <= p < g1.spec_num_outputs(i) && 0 <= j
                    < g1.spec_dependents(i, p).len() implies {
                let e = #[trigger] g1.spec_dependents(i, p)[j];
                e.0 < g1.spec_num_nodes() && e.1 < g1.spec_num_inputs(e.0 as int)
            } by {
                if i == node && p == port {
                    assert(g1.spec_dependents(i, p) == g0.spec_dependents(i, p).push(entry));
                    if j < g0.spec_dependents(i, p).len() {
                        assert(g1.spec_dependents(i, p)[j] == g0.spec_dependents(i, p)[j]);
                    } else {
                        assert(g1.spec_dependents(i, p)[j] == entry);
                    }
                } else {
                    assert(g1.spec_dependents(i, p) == g0.spec_dependents(i, p));
                }
            }
            assert forall|i: int, p: int|
                0 <= i < g1.spec_num_nodes() && 0 <= p < g1.spec_num_inputs(i) implies match #[trigger] g1.spec_provider(
                i,
                p,
            ) {
                Some(e) => e.0 < g1.spec_num_nodes() && e.1 < g1.spec_num_outputs(e.0 as int),
                None => true,
            } by {
                assert(g1.spec_provider(i, p) == g0.spec_provider(i, p));
            }
        }
    }

    fn add_provider(&mut self, node: usize, port: usize, entry: (usize, usize)) -> (r: Result<
        (),
        String,
    >)
        requires
            old(self).wf(),
            node < old(self).spec_num_nodes(),
            port < old(self).spec_num_inputs(node as int),
            entry.0 < old(self).spec_num_nodes(),
            entry.1 < old(self).spec_num_outputs(entry.0 as int),
        ensures
            final(self).wf(),
            final(self).node_names == old(self).node_names,
            final(self).input_names == old(self).input_names,
            final(self).output_names == old(self).output_names,
            final(self).dependents == old(self).dependents,
            match r {
                Ok(()) => {
                    &&& old(self).spec_provider(node as int, port as int) is None
                    &&& final(self).spec_provider(node as int, port as int) == Some(entry)
                    &&& forall|i: int, p: int|
                        0 <= i < old(self).spec_num_nodes()
                            && 0 <= p < old(self).spec_num_inputs(i)
                            && !(i == node && p == port)
                            ==> #[trigger] final(self).spec_provider(i, p)
                                == old(self).spec_provider(i, p)
                },
                Err(msg) => {
                    &&& old(self).spec_provider(node as int, port as int) is Some
                    &&& *final(self) == *old(self)
                    &&& ({
                        let oth = old(self).spec_provider(node as int, port as int)->Some_0;
                        msg@ == already_connected_msg(
                            old(self).node_name(node as int),
                            old(self).spec_input_names(node as int)[port as int]@,
                            old(self).node_name(oth.0 as int),
                            old(self).spec_output_names(oth.0 as int)[oth.1 as int]@,
                        )
                    })
                },
            },
    {
        let port_list = &self.providers[node];
        match port_list[port] {
            Some((other_n, other_p)) => {
                let r = Err(self.err_already_connected(node, port, other_n, other_p));
                r
            },
            None => {
                self.providers[node][port] = Some(entry);
                proof {
                    let g0 = *old(self);
                    let g1 = *self;
                    assert(g1.providers@ =~= g0.providers@.update(
                        node as int,
                        g1.providers@[node as int],
                    ));
                    assert(g1.providers@[node as int]@ =~= g0.providers@[node as int]@.update(
                        port as int,
                        Some(entry),
                    ));
                    assert forall|i: int, p: int|
                        0 <= i < g0.spec_num_nodes() && 0 <= p < g0.spec_num_inputs(i) && !(i
                            == node && p == port) implies #[trigger] g1.spec_provider(i, p)
                        == g0.spec_provider(i, p) by {
                        if i != node {
                            assert(g1.providers@[i] == g0.providers@[i]);
                        } else {
                            assert(g1.providers@[i]@[p] == g0.providers@[i]@[p]);
                        }
                    }
                    assert forall|i: int, p: int, j: int|
                        0 <= i < g1.spec_num_nodes() && 0 <= p < g1.spec_num_outputs(i) && 0 <= j
                            < g1.spec_dependents(i, p).len() implies {
                        let e = #[trigger] g1.spec_dependents(i, p)[j];
                        e.0 < g1.spec_num_nodes() && e.1 < g1.spec_num_inputs(e.0 as int)
                    } by {
                        assert(g1.spec_dependents(i, p) == g0.spec_dependents(i, p));
                    }
                }
                Ok(())
            },
        }
    }

    fn err_already_connected(&self, n: usize, p: usize, oth_n: usize, oth_p: usize) -> (r: String)
        requires
            self.wf(),
            n < self.spec_num_nodes(),
            p < self.spec_num_inputs(n as int),
            oth_n < self.spec_num_nodes(),
            oth_p < self.spec_num_outputs(oth_n as int),
        ensures
            r@ == already_connected_msg(
                self.node_name(n as int),
                self.spec_input_names(n as int)[p as int]@,
                self.node_name(oth_n as int),
                self.spec_output_names(oth_n as int)[oth_p as int]@,
            ),
    {
        let this_node = &self.node_names[n];
        let this_port = &self.input_names[n][p];
        let other_node = &self.node_names[oth_n];
        let other_port = &self.output_names[oth_n][oth_p];
        this_node.clone().concat(".").concat(this_port.as_str()).concat(
            " is already connected to ",
        ).concat(other_node.as_str()).concat(".").concat(other_port.as_str())
    }

    /// Connects an output port to an input port: appends to the source's
    /// dependents list, then assigns the destination's provider.  Fails when
    /// the destination input already has one; the dependent entry stays
    /// appended either way, as construction aborts on error.
    #[verifier::rlimit(60)]
    pub fn add(&mut self, src_node: &str, src_port: &str, dst_node: &str, dst_port: &str) -> (r:
        Result<(), String>)
        requires
            old(self).wf(),
            str_position(old(self).spec_node_names(), src_node@) is Some,
            str_position(
                old(self).spec_output_names(
                    str_position(old(self).spec_node_names(), src_node@)->Some_0,
                ),
                src_port@,
            ) is Some,
            str_position(old(self).spec_node_names(), dst_node@) is Some,
            str_position(
                old(self).spec_input_names(
                    str_position(old(self).spec_node_names(), dst_node@)->Some_0,
                ),
                dst_port@,
            ) is Some,
        ensures
            final(self).wf(),
            final(self).node_names == old(self).node_names,
            final(self).input_names == old(self).input_names,
            final(self).output_names == old(self).output_names,
            ({
                let sn = str_position(old(self).spec_node_names(), src_node@)->Some_0;
                let sp = str_position(old(self).spec_output_names(sn), src_port@)->Some_0;
                let dn = str_position(old(self).spec_node_names(), dst_node@)->Some_0;
                let dp = str_position(old(self).spec_input_names(dn), dst_port@)->Some_0;
                &&& final(self).spec_dependents(sn, sp) == old(self).spec_dependents(sn, sp).push(
                    (dn as usize, dp as usize),
                )
                &&& match r {
                    Ok(()) => {
                        &&& old(self).spec_provider(dn, dp) is None
                        &&& final(self).spec_provider(dn, dp) == Some((sn as usize, sp as usize))
                        &&& forall|i: int, p: int|
                            0 <= i < old(self).spec_num_nodes()
                                && 0 <= p < old(self).spec_num_inputs(i)
                                && !(i == dn && p == dp)
                                ==> #[trigger] final(self).spec_provider(i, p)
                                    == old(self).spec_provider(i, p)
                    },
                    Err(msg) => {
                        &&& old(self).spec_provider(dn, dp) is Some
                        &&& final(self).providers == old(self).providers
                        &&& ({
                            let oth = old(self).spec_provider(dn, dp)->Some_0;
                            msg@ == already_connected_msg(
                                old(self).node_name(dn),
                                old(self).spec_input_names(dn)[dp]@,
                                old(self).node_name(oth.0 as int),
                                old(self).spec_output_names(oth.0 as int)[oth.1 as int]@,
                            )
                        })
                    },
                }
            }),
    {
        proof {
            lemma_str_position(self.node_names@, src_node@);
            lemma_str_position(self.node_names@, dst_node@);
        }
        let (sn, sp) = find(src_node, src_port, &self.node_names, &self.output_names);
        let (dn, dp) = find(dst_node, dst_port, &self.node_names, &self.input_names);
        proof {
            lemma_str_position(self.output_names@[sn as int]@, src_port@);
            lemma_str_position(self.input_names@[dn as int]@, dst_port@);
        }
        self.add_dependent(sn, sp, (dn, dp));
        self.add_provider(dn, dp, (sn, sp))
    }

    pub fn has_dependents(&self, node: usize, port: usize) -> (r: bool)
        requires
            self.wf(),
            node < self.spec_num_nodes(),
            port < self.spec_num_outputs(node as int),
        ensures
            r == (self.spec_dependents(node as int, port as int).len() > 0),
    {
        self.dependents[node][port].len() > 0
    }

    pub fn has_providers(&self, node: usize, port: usize) -> (r: bool)
        requires
            self.wf(),
            node < self.spec_num_nodes(),
            port < self.spec_num_inputs(node as int),
        ensures
            r == (self.spec_provider(node as int, port as int) is Some),
    {
        self.providers[node][port].is_some()
    }

    pub fn get_provider(&self, node: usize, port: usize) -> (r: Option<(usize, usize)>)
        requires
            self.wf(),
            node < self.spec_num_nodes(),
            port < self.spec_num_inputs(node as int),
        ensures
            r == self.spec_provider(node as int, port as int),
    {
        self.providers[node][port]
    }

    /// The provider table row of `node`, one entry per input port.
    pub fn each_input(&self, node: usize) -> (r: &Vec<Option<(usize, usize)>>)
        requires
            self.wf(),
            node < self.spec_num_nodes(),
        ensures
            r@ == self.providers@[node as int]@,
            r@.len() == self.spec_num_inputs(node as int),
    {
        &self.providers[node]
    }

    /// The dependents table row of `node`, one list per output port.
    pub fn each_output(&self, node: usize) -> (r: &Vec<Vec<(usize, usize)>>)
        requires
            self.wf(),
            node < self.spec_num_nodes(),
        ensures
            r@ == self.dependents@[node as int]@,
            r@.len() == self.spec_num_outputs(node as int),
    {
        &self.dependents[node]
    }
}

} // verus!
