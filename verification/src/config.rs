//! The configuration compiler: reading a user-supplied graph description
//! into a validated, position-indexed dependency graph with resolved port
//! names.

use crate::dependency_graph::{position_of, str_position, DependencyGraph};
use crate::json::JsonValue;
use crate::nodes::{self, name_index, NodeConfig, PortConfig};
use crate::util::{find_char, find_char_spec, trim, trim_spec};
use vstd::prelude::*;
use vstd::string::StrSliceExecFns;
use vstd::string::StringExecFns;

verus! {

/// A built-in pseudo-node: its name and its fixed port lists.
pub struct ImplicitNode {
    pub name: String,
    pub inputs: Vec<String>,
    pub outputs: Vec<String>,
}

impl ImplicitNode {
    pub fn new(name: &str, inputs: Vec<String>, outputs: Vec<String>) -> (r: ImplicitNode)
        ensures
            r.name@ == name@,
            r.inputs@ == inputs@,
            r.outputs@ == outputs@,
    {
        ImplicitNode { name: name.to_owned(), inputs, outputs }
    }
}

/// One endpoint of a user-declared link, as written.
#[derive(Debug, PartialEq)]
pub struct UserNodePort {
    pub node: Option<String>,
    pub port: Option<String>,
}

/// A user-declared link between two endpoints.
#[derive(Debug, PartialEq)]
pub struct UserLink {
    pub from: UserNodePort,
    pub to: UserNodePort,
}

impl UserLink {
    /// A link read from an `input` entry: the written endpoint feeds the
    /// local node.
    pub fn new(
        from_node: Option<String>,
        from_port: Option<String>,
        to_node: Option<String>,
        to_port: Option<String>,
    ) -> (r: UserLink)
        ensures
            r.from.node == from_node,
            r.from.port == from_port,
            r.to.node == to_node,
            r.to.port == to_port,
    {
        UserLink {
            from: UserNodePort { node: from_node, port: from_port },
            to: UserNodePort { node: to_node, port: to_port },
        }
    }

    /// A link read from an `output` entry: the endpoints swap, the local
    /// node feeds the written one.
    pub fn new_reverse(
        from_node: Option<String>,
        from_port: Option<String>,
        to_node: Option<String>,
        to_port: Option<String>,
    ) -> (r: UserLink)
        ensures
            r.from.node == to_node,
            r.from.port == to_port,
            r.to.node == from_node,
            r.to.port == from_port,
    {
        UserLink {
            from: UserNodePort { node: to_node, port: to_port },
            to: UserNodePort { node: from_node, port: from_port },
        }
    }
}

/// What splitting a `node[.port]` fragment yields: the text is trimmed, cut
/// at the first dot, and each side trimmed again; without a dot there is no
/// port.
pub open spec fn parse_node_port_spec(value: Seq<char>) -> (Option<Seq<char>>, Option<Seq<char>>) {
    let t = trim_spec(value);
    match find_char_spec(t, '.') {
        Some(i) => (Some(trim_spec(t.take(i))), Some(trim_spec(t.skip(i + 1)))),
        None => (Some(t), None),
    }
}

/// Splits a `node[.port]` fragment (see `parse_node_port_spec`); inner dots
/// stay with the port.
pub fn parse_node_port(value: String) -> (r: (Option<String>, Option<String>))
    ensures
        ({
            let s = parse_node_port_spec(value@);
            &&& (r.0 matches Some(n) && Some(n@) == s.0)
            &&& match (r.1, s.1) {
                (Some(p), Some(sp)) => p@ == sp,
                (None, None) => true,
                _ => false,
            }
        }),
{
    let trimmed = trim(value.as_str());
    match find_char(trimmed, '.') {
        Some(dot) => {
            let n = trimmed.unicode_len();
            let node = trim(trimmed.substring_char(0, dot));
            let port = trim(trimmed.substring_char(dot + 1, n));
            proof {
                assert(trimmed@.subrange(0, dot as int) =~= trimmed@.take(dot as int));
                assert(trimmed@.subrange(dot + 1, n as int) =~= trimmed@.skip(dot + 1));
            }
            (Some(node.to_owned()), Some(port.to_owned()))
        },
        None => (Some(trimmed.to_owned()), None),
    }
}

/// The text `node.port` of an endpoint, an empty part for a missing side.
pub open spec fn node_port_text(np: UserNodePort) -> Seq<char> {
    (match np.node {
        Some(n) => n@,
        None => Seq::empty(),
    }) + "."@ + (match np.port {
        Some(p) => p@,
        None => Seq::empty(),
    })
}

/// The synthesized name for an endpoint: `node.port`, or `node` alone, or
/// nothing to make one from.
pub open spec fn make_port_name_spec(np: UserNodePort) -> Result<Seq<char>, Seq<char>> {
    match (np.node, np.port) {
        (Some(n), Some(p)) => Ok(n@ + "."@ + p@),
        (Some(n), None) => Ok(n@),
        (None, _) => Err("could not resolve a name"@),
    }
}

/// Synthesizes a port name from an endpoint (see `make_port_name_spec`).
pub fn make_port_name(np: &UserNodePort) -> (r: Result<String, String>)
    ensures
        match (r, make_port_name_spec(*np)) {
            (Ok(s), Ok(ss)) => s@ == ss,
            (Err(e), Err(ee)) => e@ == ee,
            _ => false,
        },
{
    match (&np.node, &np.port) {
        (Some(n), Some(p)) => Ok(n.clone().concat(".").concat(p.as_str())),
        (Some(n), None) => Ok(n.clone()),
        (None, _) => Err(String::from_str("could not resolve a name")),
    }
}

/// The context wrapper of a node's error: ``in node `X` of type `T`: e``.
pub open spec fn err_at_node_msg(name: Seq<char>, node_type: Seq<char>, e: Seq<char>) -> Seq<char> {
    "in node `"@ + name + "` of type `"@ + node_type + "`: "@ + e
}

/// The name and type a node was declared with.
#[derive(Debug, PartialEq)]
pub struct UserNodeDesc {
    pub node_type: String,
    pub name: String,
}

/// Wraps an error with the offending node's name and type.
pub fn err_at_node(desc: &UserNodeDesc, e: &str) -> (r: String)
    ensures
        r@ == err_at_node_msg(desc.name@, desc.node_type@, e@),
{
    String::from_str("in node `").concat(desc.name.as_str()).concat("` of type `").concat(
        desc.node_type.as_str(),
    ).concat("`: ").concat(e)
}

/// Reads a link endpoint's part, failing on a missing one.
pub fn get_link_str(o: &Option<String>, _name: &str) -> (r: Result<String, String>)
    ensures
        match o {
            Some(s) => r matches Ok(v) && v == s,
            None => r matches Err(e) && e@ == "bad link definition in node {_name}"@,
        },
{
    match o {
        Some(s) => Ok(s.clone()),
        None => Err(String::from_str("bad link definition in node {_name}")),
    }
}

/// A node's resolved port lists, and whether each side admits user-defined
/// ports.
pub struct PortInfo {
    pub ins: Vec<String>,
    pub outs: Vec<String>,
    pub user_ins: bool,
    pub user_outs: bool,
}

impl PortInfo {
    /// The port lists of a user node type, extended with the named ports the
    /// node declared.
    pub fn new(node_type: &str, named_ins: &Vec<String>, named_outs: &Vec<String>) -> (r: PortInfo)
        requires
            nodes::spec_node_type_of(node_type@) is Some,
    {
        let ins_pc = match nodes::default_input_ports(node_type) {
            Some(pc) => pc,
            None => {
                proof {
                    assert(false);
                }
                PortConfig { defaults: None, user_defined_ports: false }
            },
        };
        let outs_pc = match nodes::default_output_ports(node_type) {
            Some(pc) => pc,
            None => {
                proof {
                    assert(false);
                }
                PortConfig { defaults: None, user_defined_ports: false }
            },
        };
        let user_ins = ins_pc.user_defined_ports;
        let user_outs = outs_pc.user_defined_ports;
        PortInfo {
            user_ins,
            user_outs,
            ins: ins_pc.into_port_list(named_ins),
            outs: outs_pc.into_port_list(named_outs),
        }
    }

    /// The fixed port lists of an implicit node, as declared.
    pub fn from_implicit(inode: &ImplicitNode) -> (r: PortInfo)
        ensures
            r.ins@ == inode.inputs@,
            r.outs@ == inode.outputs@,
            !r.user_ins,
            !r.user_outs,
    {
        let mut ins: Vec<String> = Vec::new();
        let n = inode.inputs.len();
        for i in 0..n
            invariant
                n == inode.inputs@.len(),
                ins@.len() == i,
                forall|k: int| 0 <= k < i ==> #[trigger] ins@[k] == inode.inputs@[k],
        {
            ins.push(inode.inputs[i].clone());
        }
        let mut outs: Vec<String> = Vec::new();
        let m = inode.outputs.len();
        for i in 0..m
            invariant
                m == inode.outputs@.len(),
                outs@.len() == i,
                forall|k: int| 0 <= k < i ==> #[trigger] outs@[k] == inode.outputs@[k],
        {
            outs.push(inode.outputs[i].clone());
        }
        proof {
            assert(ins@ =~= inode.inputs@);
            assert(outs@ =~= inode.outputs@);
        }
        PortInfo { ins, outs, user_ins: false, user_outs: false }
    }
}

impl UserLink {
    /// Accepts a named port: an existing name passes, a new one is added
    /// when the side admits user-defined ports.
    pub fn accept_port_name(port: &String, ports: &mut Vec<String>, user: bool) -> (r: bool)
        ensures
            old(ports)@.len() <= final(ports)@.len(),
            forall|k: int| 0 <= k < old(ports)@.len() ==> final(ports)@[k] == old(ports)@[k],
            r == (name_index(old(ports)@, port@) is Some || user),
            r ==> name_index(final(ports)@, port@) is Some,
            !user ==> final(ports)@ == old(ports)@,
            name_index(old(ports)@, port@) is Some ==> final(ports)@ == old(ports)@,
            (name_index(old(ports)@, port@) is None && user) ==> final(ports)@ == old(
                ports,
            )@.push(*port),
            !r ==> final(ports)@ == old(ports)@,
    {
        if nodes::contains_name(ports, port.as_str()) {
            proof {
                crate::dependency_graph::lemma_str_position(ports@, port@);
            }
            true
        } else if user {
            ports.push(port.clone());
            proof {
                crate::dependency_graph::lemma_str_position(ports@, port@);
                if name_index(ports@, port@) is None {
                    assert(ports@[ports@.len() - 1]@ != port@);
                }
            }
            true
        } else {
            false
        }
    }

    /// The first declared output port, or a port synthesized from the
    /// destination endpoint when the source admits user-defined outputs.
    pub fn get_or_create_output(np: &UserNodePort, outs: &mut Vec<String>, user: bool) -> (r: Result<
        String,
        String,
    >)
        ensures
            old(outs)@.len() <= final(outs)@.len(),
            forall|k: int| 0 <= k < old(outs)@.len() ==> final(outs)@[k] == old(outs)@[k],
            !user ==> final(outs)@ == old(outs)@,
            match r {
                Ok(name) => name_index(final(outs)@, name@) is Some,
                Err(_) => final(outs)@ == old(outs)@,
            },
            old(outs)@.len() > 0 ==> (r matches Ok(name) && name == old(outs)@[0] && final(outs)@
                == old(outs)@),
            (old(outs)@.len() == 0 && user) ==> (match make_port_name_spec(*np) {
                Ok(nm) => r matches Ok(name) && name@ == nm && final(outs)@.len() == 1
                    && final(outs)@[0]@ == nm,
                Err(ee) => r matches Err(e) && e@ == ee && final(outs)@ == old(outs)@,
            }),
            (old(outs)@.len() == 0 && !user) ==> (r matches Err(e) && e@
                == "node in link has no output ports"@),
    {
        if outs.len() > 0 {
            let name = outs[0].clone();
            proof {
                crate::dependency_graph::lemma_str_position(outs@, name@);
                if name_index(outs@, name@) is None {
                    assert(outs@[0]@ != name@);
                }
            }
            Ok(name)
        } else if user {
            let new_port = match make_port_name(np) {
                Ok(p) => p,
                Err(e) => {
                    return Err(e);
                },
            };
            outs.push(new_port.clone());
            proof {
                crate::dependency_graph::lemma_str_position(outs@, new_port@);
                if name_index(outs@, new_port@) is None {
                    assert(outs@[0]@ != new_port@);
                }
            }
            Ok(new_port)
        } else {
            Err(String::from_str("node in link has no output ports"))
        }
    }

    /// A port synthesized from the source endpoint when the destination
    /// admits user-defined inputs (a duplicate is refused), else the n-th
    /// declared input.
    pub fn create_or_get_input(
        np: &UserNodePort,
        ins: &mut Vec<String>,
        user: bool,
        n: usize,
    ) -> (r: Result<String, String>)
        ensures
            old(ins)@.len() <= final(ins)@.len(),
            forall|k: int| 0 <= k < old(ins)@.len() ==> final(ins)@[k] == old(ins)@[k],
            !user ==> final(ins)@ == old(ins)@,
            match r {
                Ok(name) => name_index(final(ins)@, name@) is Some,
                Err(_) => final(ins)@ == old(ins)@,
            },
            user ==> (match make_port_name_spec(*np) {
                Ok(nm) => if name_index(old(ins)@, nm) is Some {
                    r matches Err(e) && e@ == "duplicated input port "@ + nm
                        && final(ins)@ == old(ins)@
                } else {
                    r matches Ok(name) && name@ == nm && final(ins)@.len() == old(ins)@.len() + 1
                        && final(ins)@[old(ins)@.len() as int]@ == nm
                },
                Err(ee) => r matches Err(e) && e@ == ee && final(ins)@ == old(ins)@,
            }),
            (!user && 1 <= n && n - 1 < old(ins)@.len()) ==> (r matches Ok(name) && name == old(
                ins,
            )@[n - 1]),
            (!user && !(1 <= n && n - 1 < old(ins)@.len())) ==> (r matches Err(e) && e@
                == "too many inputs declared (node type supports "@ + crate::util::dec_spec(
                old(ins)@.len() as int,
            ) + " inputs)"@),
    {
        if user {
            let new_port = match make_port_name(np) {
                Ok(p) => p,
                Err(e) => {
                    return Err(e);
                },
            };
            if nodes::contains_name(ins, new_port.as_str()) {
                return Err(
                    String::from_str("duplicated input port ").concat(new_port.as_str()),
                );
            }
            ins.push(new_port.clone());
            proof {
                crate::dependency_graph::lemma_str_position(ins@, new_port@);
                if name_index(ins@, new_port@) is None {
                    assert(ins@[ins@.len() - 1]@ != new_port@);
                }
            }
            Ok(new_port)
        } else if n >= 1 && n - 1 < ins.len() {
            let name = ins[n - 1].clone();
            proof {
                crate::dependency_graph::lemma_str_position(ins@, name@);
                if name_index(ins@, name@) is None {
                    assert(ins@[n - 1]@ != name@);
                }
            }
            Ok(name)
        } else {
            Err(
                String::from_str("too many inputs declared (node type supports ").concat(
                    crate::util::u64_to_dec(ins.len() as u64).as_str(),
                ).concat(" inputs)"),
            )
        }
    }
}

/// The text `unknown node in link: ` followed by the endpoint.
pub open spec fn unknown_node_msg(np: UserNodePort) -> Seq<char> {
    "unknown node in link: "@ + node_port_text(np)
}

/// Renders an endpoint as `node.port` for an error message.
pub fn node_port_string(np: &UserNodePort) -> (r: String)
    ensures
        r@ == node_port_text(*np),
{
    let node = match &np.node {
        Some(n) => n.clone(),
        None => String::new(),
    };
    let port = match &np.port {
        Some(p) => p.as_str(),
        None => "",
    };
    proof {
        reveal_strlit("");
    }
    node.concat(".").concat(port)
}

/// The position of an endpoint's node in the name table, or the unknown-node
/// error.
pub fn node_position(node_names: &Vec<String>, np: &UserNodePort) -> (r: Result<usize, String>)
    ensures
        match r {
            Ok(i) => i < node_names@.len() && (np.node matches Some(s) && str_position(
                node_names@,
                s@,
            ) == Some(i as int)),
            Err(e) => e@ == unknown_node_msg(*np) && match np.node {
                Some(s) => str_position(node_names@, s@) is None,
                None => true,
            },
        },
{
    match &np.node {
        Some(s) => match position_of(node_names, s.as_str()) {
            Some(i) => Ok(i),
            None => Err(
                String::from_str("unknown node in link: ").concat(node_port_string(np).as_str()),
            ),
        },
        None => Err(
            String::from_str("unknown node in link: ").concat(node_port_string(np).as_str()),
        ),
    }
}

/// Resolves the source side of a link against the source node's output
/// ports; a computed name is handed back for the deferred assignment.
fn resolve_from(link: &UserLink, ports: &mut Vec<PortInfo>, s: usize) -> (r: Result<
    Option<String>,
    String,
>)
    requires
        s < old(ports)@.len(),
        link.from.node is Some,
    ensures
        final(ports)@.len() == old(ports)@.len(),
        forall|m: int|
            0 <= m < old(ports)@.len() && m != s ==> final(ports)@[m] == old(ports)@[m],
        final(ports)@[s as int].ins == old(ports)@[s as int].ins,
        final(ports)@[s as int].user_ins == old(ports)@[s as int].user_ins,
        final(ports)@[s as int].user_outs == old(ports)@[s as int].user_outs,
        !old(ports)@[s as int].user_outs ==> final(ports)@[s as int].outs@ == old(
            ports,
        )@[s as int].outs@,
{
    let pi = &mut ports[s];
    match &link.from.port {
        Some(port) => {
            if !UserLink::accept_port_name(port, &mut pi.outs, pi.user_outs) {
                let node = match &link.from.node {
                    Some(n) => n.clone(),
                    None => String::new(),
                };
                return Err(
                    String::from_str("invalid output port name ").concat(node.as_str()).concat(
                        ".",
                    ).concat(port.as_str()),
                );
            }
            Ok(None)
        },
        None => {
            match UserLink::get_or_create_output(&link.to, &mut pi.outs, pi.user_outs) {
                Ok(name) => Ok(Some(name)),
                Err(e) => Err(e),
            }
        },
    }
}

/// Resolves the destination side of a link against the destination node's
/// input ports; `n_ins` is the one-based count of links already bound into
/// that node.
fn resolve_to(link: &UserLink, ports: &mut Vec<PortInfo>, d: usize, n_ins: usize) -> (r: Result<
    Option<String>,
    String,
>)
    requires
        d < old(ports)@.len(),
        link.to.node is Some,
    ensures
        final(ports)@.len() == old(ports)@.len(),
        forall|m: int|
            0 <= m < old(ports)@.len() && m != d ==> final(ports)@[m] == old(ports)@[m],
        final(ports)@[d as int].outs == old(ports)@[d as int].outs,
        final(ports)@[d as int].user_ins == old(ports)@[d as int].user_ins,
        final(ports)@[d as int].user_outs == old(ports)@[d as int].user_outs,
        !old(ports)@[d as int].user_ins ==> final(ports)@[d as int].ins@ == old(
            ports,
        )@[d as int].ins@,
{
    let pi = &mut ports[d];
    match &link.to.port {
        Some(port) => {
            if !UserLink::accept_port_name(port, &mut pi.ins, pi.user_ins) {
                let node = match &link.to.node {
                    Some(n) => n.clone(),
                    None => String::new(),
                };
                return Err(
                    String::from_str("invalid input port name ").concat(node.as_str()).concat(
                        ".",
                    ).concat(port.as_str()),
                );
            }
            Ok(None)
        },
        None => {
            match UserLink::create_or_get_input(&link.from, &mut pi.ins, pi.user_ins, n_ins) {
                Ok(name) => Ok(Some(name)),
                Err(e) => Err(e),
            }
        },
    }
}

impl UserLink {
    /// Resolves this link's two port names against the source's outputs and
    /// the destination's inputs.  Both sides are computed before either is
    /// assigned, so a name synthesized for one side never sees the other
    /// side's resolution.
    pub fn resolve_port_names(
        &mut self,
        ports: &mut Vec<PortInfo>,
        s: usize,
        d: usize,
        n_ins: usize,
    ) -> (r: Result<(), String>)
        requires
            s < old(ports)@.len(),
            d < old(ports)@.len(),
            old(self).from.node is Some,
            old(self).to.node is Some,
        ensures
            ports_preserved(old(ports)@, final(ports)@),
            final(self).from.node == old(self).from.node,
            final(self).to.node == old(self).to.node,
    {
        let ghost ports0 = ports@;
        let from_port = match resolve_from(self, ports, s) {
            Ok(fp) => fp,
            Err(e) => {
                return Err(e);
            },
        };
        proof {
            assert(ports_preserved(ports0, ports@));
        }
        let ghost ports1 = ports@;
        let to_port = match resolve_to(self, ports, d, n_ins) {
            Ok(tp) => tp,
            Err(e) => {
                proof {
                    assert(ports_preserved(ports1, ports@));
                    lemma_ports_preserved_trans(ports0, ports1, ports@);
                }
                return Err(e);
            },
        };
        proof {
            assert(ports_preserved(ports1, ports@));
            lemma_ports_preserved_trans(ports0, ports1, ports@);
        }
        match from_port {
            Some(fp) => {
                self.from.port = Some(fp);
            },
            None => {},
        }
        match to_port {
            Some(tp) => {
                self.to.port = Some(tp);
            },
            None => {},
        }
        Ok(())
    }
}

/// A node's parsed declaration: its description, its property bag, its
/// links, and its declared port names.
#[derive(Debug, PartialEq)]
pub struct UserNodeConfig {
    pub desc: UserNodeDesc,
    pub bt: Vec<(String, JsonValue)>,
    pub links: Vec<UserLink>,
    pub n_inputs: usize,
    pub n_outputs: usize,
    pub named_ins: Vec<String>,
    pub named_outs: Vec<String>,
}

/// The parsed configuration: the user nodes in declaration order, and the
/// debug flag.
#[derive(Debug, PartialEq)]
pub struct UserConfig {
    pub nodes: Vec<UserNodeConfig>,
    pub debug: bool,
}

/// One port table preserves another: same length, the same user-port
/// flags, and every list that admits no user-defined ports is unchanged.
pub open spec fn ports_preserved(a: Seq<PortInfo>, b: Seq<PortInfo>) -> bool {
    &&& b.len() == a.len()
    &&& forall|m: int|
        0 <= m < a.len() ==> {
            &&& (#[trigger] b[m]).user_ins == a[m].user_ins
            &&& b[m].user_outs == a[m].user_outs
            &&& (!a[m].user_ins ==> b[m].ins@ == a[m].ins@)
            &&& (!a[m].user_outs ==> b[m].outs@ == a[m].outs@)
        }
}

/// Preservation composes.
pub proof fn lemma_ports_preserved_trans(a: Seq<PortInfo>, b: Seq<PortInfo>, c: Seq<PortInfo>)
    requires
        ports_preserved(a, b),
        ports_preserved(b, c),
    ensures
        ports_preserved(a, c),
{
    assert forall|m: int| 0 <= m < a.len() implies {
        &&& (#[trigger] c[m]).user_ins == a[m].user_ins
        &&& c[m].user_outs == a[m].user_outs
        &&& (!a[m].user_ins ==> c[m].ins@ == a[m].ins@)
        &&& (!a[m].user_outs ==> c[m].outs@ == a[m].outs@)
    } by {
        assert(b[m].user_ins == a[m].user_ins);
        assert(c[m].user_ins == b[m].user_ins);
    }
}

/// Resolves the port names of every link of one node: both endpoints are
/// located by name, a self-loop is rejected, and missing port names are
/// filled in, counting bound inputs per destination.
/// Resolves one link: locates both endpoints, rejects a self-loop, fills
/// in missing port names, and counts the bound input.
fn fixup_one_link(
    link: &mut UserLink,
    node_names: &Vec<String>,
    ports: &mut Vec<PortInfo>,
    linked_inputs: &mut Vec<usize>,
) -> (r: Result<(), String>)
    requires
        old(ports)@.len() == node_names@.len(),
        old(linked_inputs)@.len() == node_names@.len(),
    ensures
        ports_preserved(old(ports)@, final(ports)@),
        final(linked_inputs)@.len() == old(linked_inputs)@.len(),
{
    let s = match node_position(node_names, &link.from) {
        Ok(s) => s,
        Err(e) => {
            return Err(e);
        },
    };
    let d = match node_position(node_names, &link.to) {
        Ok(d) => d,
        Err(e) => {
            return Err(e);
        },
    };
    if s == d {
        return Err(String::from_str("node cannot connect to itself"));
    }
    let count = linked_inputs[d];
    let count = if count < usize::MAX {
        count + 1
    } else {
        count
    };
    linked_inputs[d] = count;
    link.resolve_port_names(ports, s, d, count)
}

/// Resolves the port names of every link of one node (see
/// `fixup_one_link`).
pub fn fixup_missing_port_names(
    unc: &mut UserNodeConfig,
    node_names: &Vec<String>,
    ports: &mut Vec<PortInfo>,
    linked_inputs: &mut Vec<usize>,
) -> (r: Result<(), String>)
    requires
        old(ports)@.len() == node_names@.len(),
        old(linked_inputs)@.len() == node_names@.len(),
    ensures
        ports_preserved(old(ports)@, final(ports)@),
        final(linked_inputs)@.len() == old(linked_inputs)@.len(),
        final(unc).desc == old(unc).desc,
{
    let n_links = unc.links.len();
    for j in 0..n_links
        invariant
            n_links == unc.links@.len(),
            old(ports)@.len() == node_names@.len(),
            old(linked_inputs)@.len() == node_names@.len(),
            linked_inputs@.len() == node_names@.len(),
            ports_preserved(old(ports)@, ports@),
            unc.desc == old(unc).desc,
    {
        let ghost pp = ports@;
        match fixup_one_link(&mut unc.links[j], node_names, ports, linked_inputs) {
            Ok(()) => {},
            Err(e) => {
                proof {
                    lemma_ports_preserved_trans(old(ports)@, pp, ports@);
                }
                return Err(e);
            },
        }
        proof {
            lemma_ports_preserved_trans(old(ports)@, pp, ports@);
        }
    }
    Ok(())
}

/// Appends the default links a node's configuration asks for, when the user
/// declared no inputs or no outputs of their own.
pub fn add_default_links(
    name: &str,
    n_inputs: usize,
    n_outputs: usize,
    links: &mut Vec<UserLink>,
    nc: &NodeConfig,
)
    ensures
        final(links)@.len() >= old(links)@.len(),
        forall|k: int| 0 <= k < old(links)@.len() ==> final(links)@[k] == old(links)@[k],
        forall|k: int|
            old(links)@.len() <= k < final(links)@.len() ==> {
                &&& (#[trigger] final(links)@[k]).from.node is Some
                &&& final(links)@[k].to.node is Some
            },
{
    if n_inputs == 0 {
        match nc.default_inputs() {
            Some(default_inputs) => {
                let m = default_inputs.len();
                for i in 0..m
                    invariant
                        m == default_inputs@.len(),
                        links@.len() >= old(links)@.len(),
                        forall|k: int|
                            0 <= k < old(links)@.len() ==> links@[k] == old(links)@[k],
                        forall|k: int|
                            old(links)@.len() <= k < links@.len() ==> {
                                &&& (#[trigger] links@[k]).from.node is Some
                                &&& links@[k].to.node is Some
                            },
                {
                    let input = &default_inputs[i];
                    links.push(
                        UserLink {
                            from: UserNodePort {
                                node: Some(input.other_node.clone()),
                                port: Some(input.other_port.clone()),
                            },
                            to: UserNodePort {
                                node: Some(name.to_owned()),
                                port: Some(input.this_port.clone()),
                            },
                        },
                    );
                }
            },
            None => {},
        }
    }
    if n_outputs == 0 {
        match nc.default_outputs() {
            Some(default_outputs) => {
                let m = default_outputs.len();
                for i in 0..m
                    invariant
                        m == default_outputs@.len(),
                        links@.len() >= old(links)@.len(),
                        forall|k: int|
                            0 <= k < old(links)@.len() ==> links@[k] == old(links)@[k],
                        forall|k: int|
                            old(links)@.len() <= k < links@.len() ==> {
                                &&& (#[trigger] links@[k]).from.node is Some
                                &&& links@[k].to.node is Some
                            },
                {
                    let output = &default_outputs[i];
                    links.push(
                        UserLink {
                            from: UserNodePort {
                                node: Some(name.to_owned()),
                                port: Some(output.this_port.clone()),
                            },
                            to: UserNodePort {
                                node: Some(output.other_node.clone()),
                                port: Some(output.other_port.clone()),
                            },
                        },
                    );
                }
            },
            None => {},
        }
    }
}

/// Moves the resolved port lists out into the two name tables the graph is
/// built from.
pub fn into_name_lists(ports: Vec<PortInfo>) -> (r: (Vec<Vec<String>>, Vec<Vec<String>>))
    ensures
        r.0@.len() == ports@.len(),
        r.1@.len() == ports@.len(),
        forall|i: int| 0 <= i < ports@.len() ==> #[trigger] r.0@[i]@ == ports@[i].ins@,
        forall|i: int| 0 <= i < ports@.len() ==> #[trigger] r.1@[i]@ == ports@[i].outs@,
{
    let mut input_names: Vec<Vec<String>> = Vec::new();
    let mut output_names: Vec<Vec<String>> = Vec::new();
    let mut rest = ports;
    let n0 = rest.len();
    let ghost orig = rest@;
    let mut i: usize = 0;
    while rest.len() > 0
        invariant
            rest@ =~= orig.skip(i as int),
            orig.len() == n0,
            0 <= i <= orig.len(),
            input_names@.len() == i,
            output_names@.len() == i,
            forall|k: int| 0 <= k < i ==> #[trigger] input_names@[k]@ == orig[k].ins@,
            forall|k: int| 0 <= k < i ==> #[trigger] output_names@[k]@ == orig[k].outs@,
        decreases rest@.len(),
    {
        let pi = rest.remove(0);
        input_names.push(pi.ins);
        output_names.push(pi.outs);
        proof {
            assert(rest@ =~= orig.skip(i + 1));
        }
        i = i + 1;
    }
    (input_names, output_names)
}

/// Reads the link list under an `inputs` or `outputs` key: an object maps
/// local ports to endpoints, an array lists endpoints or such objects.
fn read_links_object(
    links: &mut Vec<UserLink>,
    entries: &Vec<(String, JsonValue)>,
    named: &mut Vec<String>,
    reverse: bool,
) -> (r: Result<(), String>) {
    let n = entries.len();
    for i in 0..n
        invariant
            n == entries@.len(),
    {
        let my_port = entries[i].0.clone();
        named.push(my_port.clone());
        let node_port = match &entries[i].1 {
            JsonValue::Str(s) => s.clone(),
            _ => {
                return Err(String::from_str("invalid map value"));
            },
        };
        let (node, port) = parse_node_port(node_port);
        if reverse {
            links.push(UserLink::new_reverse(node, port, None, Some(my_port)));
        } else {
            links.push(UserLink::new(node, port, None, Some(my_port)));
        }
    }
    Ok(())
}

fn read_links(
    links: &mut Vec<UserLink>,
    value: &JsonValue,
    named: &mut Vec<String>,
    reverse: bool,
) -> (r: Result<(), String>) {
    match value {
        JsonValue::Object(entries) => read_links_object(links, entries, named, reverse),
        JsonValue::Array(items) => {
            let n = items.len();
            for i in 0..n
                invariant
                    n == items@.len(),
            {
                match &items[i] {
                    JsonValue::Object(entries) => {
                        match read_links_object(links, entries, named, reverse) {
                            Ok(()) => {},
                            Err(e) => {
                                return Err(e);
                            },
                        }
                    },
                    JsonValue::Str(s) => {
                        let (node, port) = parse_node_port(s.clone());
                        if reverse {
                            links.push(UserLink::new_reverse(node, port, None, None));
                        } else {
                            links.push(UserLink::new(node, port, None, None));
                        }
                    },
                    _ => {
                        return Err(String::from_str("invalid list value"));
                    },
                }
            }
            Ok(())
        },
        _ => Err(String::from_str("invalid object")),
    }
}

/// Reads one node's declaration from its JSON object: the `type`, `name`,
/// `input(s)` and `output(s)` keys are interpreted, every other key lands in
/// the property bag; links missing a local side get it back-filled with the
/// node's name.
///
/// The object's entries arrive sorted by key (the parse stores objects that
/// way), so when one node mixes `input`/`inputs`/`output`/`outputs`, its
/// links are gathered in that key order rather than document order; the
/// k-th-declared-input binding of a type without user-defined ports follows
/// that order.
pub fn parse_user_node(v: &JsonValue, index: usize) -> (r: Result<UserNodeConfig, String>)
    ensures
        match r {
            Ok(unc) => (v.spec_get("type"@) matches Some(t) && *t matches JsonValue::Str(ty)
                && unc.desc.node_type@ == ty@),
            Err(_) => true,
        },
{
    let entries = match v {
        JsonValue::Object(entries) => entries,
        _ => {
            return Err(String::from_str("invalid object"));
        },
    };
    let mut bt: Vec<(String, JsonValue)> = Vec::new();
    let mut typ: Option<String> = None;
    let mut type_seen: bool = false;
    let mut name: Option<String> = None;
    let mut name_seen: bool = false;
    let mut links: Vec<UserLink> = Vec::new();
    let mut named_ins: Vec<String> = Vec::new();
    let mut named_outs: Vec<String> = Vec::new();
    let n = entries.len();
    for i in 0..n
        invariant
            n == entries@.len(),
            v matches JsonValue::Object(e) && e == entries,
            type_seen == (exists|k: int| 0 <= k < i && entries@[k].0@ == "type"@),
            match typ {
                Some(t) => exists|k: int|
                    0 <= k < i && entries@[k].0@ == "type"@ && (forall|m: int|
                        0 <= m < k ==> entries@[m].0@ != "type"@) && (#[trigger] entries@[k].1
                        matches JsonValue::Str(ty) && t@ == ty@),
                None => forall|k: int|
                    0 <= k < i && entries@[k].0@ == "type"@ && (forall|m: int|
                        0 <= m < k ==> entries@[m].0@ != "type"@) ==> !(#[trigger] entries@[k].1
                        matches JsonValue::Str(_)),
            },
    {
        proof {
            reveal_strlit("type");
            reveal_strlit("name");
            reveal_strlit("input");
            reveal_strlit("inputs");
            reveal_strlit("output");
            reveal_strlit("outputs");
        }
        let key = &entries[i].0;
        if crate::util::str_eq(key.as_str(), "type") {
            if !type_seen {
                match &entries[i].1 {
                    JsonValue::Str(value) => {
                        typ = Some(value.clone());
                    },
                    _ => {},
                }
            }
            type_seen = true;
        } else if crate::util::str_eq(key.as_str(), "name") {
            if !name_seen {
                match &entries[i].1 {
                    JsonValue::Str(value) => {
                        name = Some(value.clone());
                    },
                    _ => {},
                }
            }
            name_seen = true;
        } else if crate::util::str_eq(key.as_str(), "input") {
            match &entries[i].1 {
                JsonValue::Str(value) => {
                    let (node, port) = parse_node_port(value.clone());
                    links.push(UserLink::new(node, port, None, None));
                },
                _ => {},
            }
        } else if crate::util::str_eq(key.as_str(), "inputs") {
            match read_links(&mut links, &entries[i].1, &mut named_ins, false) {
                Ok(()) => {},
                Err(e) => {
                    return Err(e);
                },
            }
        } else if crate::util::str_eq(key.as_str(), "output") {
            match &entries[i].1 {
                JsonValue::Str(value) => {
                    let (node, port) = parse_node_port(value.clone());
                    links.push(UserLink::new(None, None, node, port));
                },
                _ => {},
            }
        } else if crate::util::str_eq(key.as_str(), "outputs") {
            match read_links(&mut links, &entries[i].1, &mut named_outs, true) {
                Ok(()) => {},
                Err(e) => {
                    return Err(e);
                },
            }
        } else {
            bt.push((key.clone(), entries[i].1.clone()));
        }
    }
    let name = match name {
        Some(n) => n,
        None => String::from_str("unnamed_").concat(
            crate::util::u64_to_dec(index as u64).as_str(),
        ),
    };
    let mut n_inputs: usize = 0;
    let mut n_outputs: usize = 0;
    let n_links = links.len();
    for j in 0..n_links
        invariant
            n_links == links@.len(),
            n_inputs <= j,
            n_outputs <= j,
    {
        if links[j].to.node.is_none() {
            links[j].to.node = Some(name.clone());
            n_inputs = n_inputs + 1;
        }
        if links[j].from.node.is_none() {
            links[j].from.node = Some(name.clone());
            n_outputs = n_outputs + 1;
        }
    }
    proof {
        crate::json::lemma_spec_get_props(v, "type"@);
    }
    match typ {
        Some(node_type) => Ok(
            UserNodeConfig {
                desc: UserNodeDesc { node_type, name },
                bt,
                links,
                n_inputs,
                n_outputs,
                named_ins,
                named_outs,
            },
        ),
        None => Err(String::from_str("missing field `type`")),
    }
}

/// Reads the whole configuration document: a `nodes` array of node
/// declarations and an optional `debug` flag.
pub fn parse_user_config(v: &JsonValue) -> (r: Result<UserConfig, String>)
    ensures
        (v matches JsonValue::Object(_) && v.spec_get("nodes"@) is None) ==> (r matches Err(e) && e@
            == "missing field `nodes`"@),
        match r {
            Ok(uc) => {
                &&& (v.spec_get("nodes"@) matches Some(arr) && *arr matches JsonValue::Array(items)
                    && uc.nodes@.len() == items@.len())
                &&& (match v.spec_get("debug"@) {
                    Some(x) => (*x matches JsonValue::Bool(db) ==> uc.debug == db),
                    None => uc.debug == false,
                })
            },
            Err(_) => true,
        },
        (v matches JsonValue::Object(_) && (v.spec_get("nodes"@) matches Some(arr) && (*arr
            matches JsonValue::Array(items) && items@.len() == 0)) && (match v.spec_get("debug"@) {
            Some(x) => *x matches JsonValue::Bool(_),
            None => true,
        })) ==> (r matches Ok(uc) && uc.nodes@.len() == 0),
{
    match v {
        JsonValue::Object(_) => {},
        _ => {
            return Err(String::from_str("Invalid type"));
        },
    }
    let items = match v.get("nodes") {
        Some(nodes_v) => match nodes_v {
            JsonValue::Array(items) => items,
            _ => {
                return Err(String::from_str("Invalid type"));
            },
        },
        None => {
            return Err(String::from_str("missing field `nodes`"));
        },
    };
    let debug = match v.get("debug") {
        Some(debug_v) => match debug_v {
            JsonValue::Bool(b) => *b,
            _ => {
                return Err(String::from_str("Invalid type"));
            },
        },
        None => false,
    };
    let mut nodes: Vec<UserNodeConfig> = Vec::new();
    let n = items.len();
    for i in 0..n
        invariant
            n == items@.len(),
            nodes@.len() == i,
            v.spec_get("nodes"@) matches Some(arr) && (*arr matches JsonValue::Array(its) && its
                == items),
    {
        match parse_user_node(&items[i], i) {
            Ok(unc) => {
                nodes.push(unc);
            },
            Err(e) => {
                return Err(e);
            },
        }
    }
    Ok(UserConfig { nodes, debug })
}

/// One compiled node: its name, its type tag, and its typed configuration.
#[derive(Debug)]
pub struct NodeInfo {
    pub name: String,
    pub node_type: String,
    pub node_config: NodeConfig,
}

/// Builds a node's typed configuration from its resolved ports, then
/// appends the default links the configuration asks for.
pub fn make_node_info(unc: &mut UserNodeConfig, port_info: &PortInfo) -> (r: Result<
    NodeInfo,
    String,
>)
    ensures
        final(unc).desc == old(unc).desc,
        match r {
            Ok(info) => info.name@ == old(unc).desc.name@ && info.node_type@ == old(
                unc,
            ).desc.node_type@,
            Err(_) => true,
        },
{
    let nc = match nodes::new_config(
        unc.desc.node_type.as_str(),
        unc.desc.name.as_str(),
        &port_info.ins,
        &port_info.outs,
        &unc.bt,
    ) {
        Ok(nc) => nc,
        Err(e) => {
            return Err(e);
        },
    };
    add_default_links(unc.desc.name.as_str(), unc.n_inputs, unc.n_outputs, &mut unc.links, &nc);
    Ok(
        NodeInfo {
            name: unc.desc.name.clone(),
            node_type: unc.desc.node_type.clone(),
            node_config: nc,
        },
    )
}

/// The node's name clashes with a built-in node's.
pub open spec fn name_reserved(unc: UserNodeConfig, implicits: Seq<ImplicitNode>) -> bool {
    exists|i: int| 0 <= i < implicits.len() && (#[trigger] implicits[i].name)@ == unc.desc.name@
}

/// The per-node validation outcome, in check order: a reserved name is
/// reported first, then an unknown type; a clean node reports nothing.
pub open spec fn node_precheck_msg(unc: UserNodeConfig, implicits: Seq<ImplicitNode>) -> Option<
    Seq<char>,
> {
    if name_reserved(unc, implicits) {
        Some(
            err_at_node_msg(unc.desc.name@, unc.desc.node_type@, "cannot use reserved node name"@),
        )
    } else if nodes::spec_node_type_of(unc.desc.node_type@) is None {
        Some(err_at_node_msg(unc.desc.name@, unc.desc.node_type@, "unknown node type"@))
    } else {
        None
    }
}

/// Some link of the node names the same node on both ends.
pub open spec fn has_self_link(unc: UserNodeConfig) -> bool {
    exists|j: int|
        0 <= j < unc.links@.len() && ((#[trigger] unc.links@[j]).from.node matches Some(a)
            && (unc.links@[j].to.node matches Some(b) && a@ == b@))
}

/// The node repeats the name of an earlier node in the list.
pub open spec fn dup_name_at(nodes_l: Seq<UserNodeConfig>, u: int) -> bool {
    exists|v: int| 0 <= v < u && (#[trigger] nodes_l[v].desc.name)@ == nodes_l[u].desc.name@
}

/// No input port is fed by its own node: the graph has no self-loop.
pub open spec fn no_self_providers(g: DependencyGraph) -> bool {
    forall|n: int, p: int|
        0 <= n < g.spec_num_nodes() && 0 <= p < g.spec_num_inputs(n) ==> match #[trigger] g.spec_provider(
            n,
            p,
        ) {
            Some(e) => e.0 != n,
            None => true,
        }
}

/// The compiled configuration: the node table and the dependency graph.
#[derive(Debug)]
pub struct Config {
    pub n_nodes: usize,
    pub n_implicits: usize,
    pub node_list: Vec<NodeInfo>,
    pub graph: DependencyGraph,
    pub debug: bool,
}

/// Adds one resolved link to the graph: endpoints are located by name and
/// checked, a self-loop is refused, and the already-connected error is
/// wrapped with the node's context.
#[verifier::rlimit(60)]
fn add_link_to_graph(
    graph: &mut DependencyGraph,
    link: &UserLink,
    desc_name: &str,
    desc_type: &str,
) -> (r: Result<(), String>)
    requires
        old(graph).wf(),
        no_self_providers(*old(graph)),
    ensures
        final(graph).wf(),
        no_self_providers(*final(graph)),
        final(graph).node_names == old(graph).node_names,
        final(graph).input_names == old(graph).input_names,
        final(graph).output_names == old(graph).output_names,
        final(graph).spec_num_nodes() == old(graph).spec_num_nodes(),
{
    let fs = match get_link_str(&link.from.node, desc_name) {
        Ok(s) => s,
        Err(e) => {
            return Err(e);
        },
    };
    let fp = match get_link_str(&link.from.port, desc_name) {
        Ok(s) => s,
        Err(e) => {
            return Err(e);
        },
    };
    let ts = match get_link_str(&link.to.node, desc_name) {
        Ok(s) => s,
        Err(e) => {
            return Err(e);
        },
    };
    let tp = match get_link_str(&link.to.port, desc_name) {
        Ok(s) => s,
        Err(e) => {
            return Err(e);
        },
    };
    let sn = match position_of(&graph.node_names, fs.as_str()) {
        Some(sn) => sn,
        None => {
            return Err(String::from_str("unknown node in link: ").concat(fs.as_str()));
        },
    };
    let dn = match position_of(&graph.node_names, ts.as_str()) {
        Some(dn) => dn,
        None => {
            return Err(String::from_str("unknown node in link: ").concat(ts.as_str()));
        },
    };
    if sn == dn {
        let desc = UserNodeDesc {
            node_type: desc_type.to_owned(),
            name: desc_name.to_owned(),
        };
        return Err(err_at_node(&desc, "node cannot connect to itself"));
    }
    match position_of(&graph.output_names[sn], fp.as_str()) {
        Some(_) => {},
        None => {
            return Err(String::from_str("unknown port in link: ").concat(fp.as_str()));
        },
    }
    match position_of(&graph.input_names[dn], tp.as_str()) {
        Some(_) => {},
        None => {
            return Err(String::from_str("unknown port in link: ").concat(tp.as_str()));
        },
    }
    let ghost g0 = *graph;
    let add_result = graph.add(fs.as_str(), fp.as_str(), ts.as_str(), tp.as_str());
    proof {
        let sn_s = crate::dependency_graph::str_position(g0.spec_node_names(), fs@)->Some_0;
        let dn_s = crate::dependency_graph::str_position(g0.spec_node_names(), ts@)->Some_0;
        let dp_s = crate::dependency_graph::str_position(g0.spec_input_names(dn_s), tp@)->Some_0;
        assert(sn_s == sn as int && dn_s == dn as int);
        assert forall|n: int, pp: int|
            0 <= n < graph.spec_num_nodes() && 0 <= pp < graph.spec_num_inputs(n) implies match #[trigger] graph.spec_provider(
            n,
            pp,
        ) {
            Some(e) => e.0 != n,
            None => true,
        } by {
            match add_result {
                Ok(()) => {
                    if n == dn_s && pp == dp_s {
                        assert(graph.spec_provider(n, pp) == Some((sn, 
                            crate::dependency_graph::str_position(
                                g0.spec_output_names(sn_s),
                                fp@,
                            )->Some_0 as usize)));
                    } else {
                        assert(graph.spec_provider(n, pp) == g0.spec_provider(n, pp));
                    }
                },
                Err(_) => {
                    assert(graph.providers == g0.providers);
                    assert(graph.spec_provider(n, pp) == g0.spec_provider(n, pp));
                },
            }
        }
    }
    match add_result {
        Ok(()) => Ok(()),
        Err(e) => {
            let desc = UserNodeDesc {
                node_type: desc_type.to_owned(),
                name: desc_name.to_owned(),
            };
            Err(err_at_node(&desc, e.as_str()))
        },
    }
}

impl UserConfig {
    /// Compiles the parsed configuration against the implicit nodes: checks
    /// names and types, resolves every link's ports, instantiates the node
    /// configurations, and builds the dependency graph.
    #[verifier::rlimit(100)]
    pub fn into_config(self, implicits: &Vec<ImplicitNode>) -> (r: Result<Config, String>)
        requires
            implicits@.len() + self.nodes@.len() <= usize::MAX,
        ensures
            match r {
                Ok(cfg) => {
                    &&& cfg.graph.wf()
                    &&& cfg.n_implicits == implicits@.len()
                    &&& cfg.n_nodes == implicits@.len() + self.nodes@.len()
                    &&& cfg.graph.spec_num_nodes() == cfg.n_nodes
                    &&& cfg.node_list@.len() == cfg.n_nodes
                    &&& cfg.debug == self.debug
                    &&& no_self_providers(cfg.graph)
                    &&& forall|i: int|
                        0 <= i < implicits@.len() ==> #[trigger] cfg.graph.node_name(i)
                            == implicits@[i].name@
                    &&& forall|i: int|
                        0 <= i < implicits@.len() ==> #[trigger] cfg.graph.spec_input_names(i)
                            == implicits@[i].inputs@
                    &&& forall|i: int|
                        0 <= i < implicits@.len() ==> #[trigger] cfg.graph.spec_output_names(i)
                            == implicits@[i].outputs@
                    &&& forall|i: int|
                        0 <= i < implicits@.len() ==> (#[trigger] cfg.node_list@[i]).name@
                            == implicits@[i].name@ && cfg.node_list@[i].node_type@ == "implicit"@
                    &&& forall|u: int|
                        0 <= u < self.nodes@.len() ==> (#[trigger] cfg.node_list@[implicits@.len()
                            + u]).name@ == self.nodes@[u].desc.name@
                            && cfg.node_list@[implicits@.len() + u].node_type@
                            == self.nodes@[u].desc.node_type@
                },
                Err(_) => true,
            },
            self.nodes@.len() == 0 ==> r is Ok,
            (exists|u: int|
                0 <= u < self.nodes@.len() && (#[trigger] node_precheck_msg(
                    self.nodes@[u],
                    implicits@,
                )) is Some) ==> (r matches Err(e) && exists|u: int|
                0 <= u < self.nodes@.len() && ((#[trigger] node_precheck_msg(
                    self.nodes@[u],
                    implicits@,
                )) matches Some(m) && (forall|v: int|
                    0 <= v < u ==> node_precheck_msg(self.nodes@[v], implicits@) is None) && e@
                    == m)),
            ((forall|u: int|
                0 <= u < self.nodes@.len() ==> (#[trigger] node_precheck_msg(
                    self.nodes@[u],
                    implicits@,
                )) is None) && (exists|u: int|
                0 <= u < self.nodes@.len() && #[trigger] dup_name_at(self.nodes@, u))) ==> (r
                matches Err(e) && exists|u: int|
                0 <= u < self.nodes@.len() && #[trigger] dup_name_at(self.nodes@, u) && (forall|
                    v: int,
                |
                    0 <= v < u ==> !dup_name_at(self.nodes@, v)) && e@
                    == "multiple definitions of node `"@ + self.nodes@[u].desc.name@ + "`"@),
            ((forall|u: int|
                0 <= u < self.nodes@.len() ==> (#[trigger] node_precheck_msg(
                    self.nodes@[u],
                    implicits@,
                )) is None) && (forall|u: int|
                0 <= u < self.nodes@.len() ==> !(#[trigger] dup_name_at(self.nodes@, u))) && (
            exists|u: int|
                0 <= u < self.nodes@.len() && #[trigger] has_self_link(self.nodes@[u]))) ==> (r
                matches Err(e) && exists|u: int|
                0 <= u < self.nodes@.len() && #[trigger] has_self_link(self.nodes@[u]) && (forall|
                    v: int,
                |
                    0 <= v < u ==> !has_self_link(self.nodes@[v])) && e@ == err_at_node_msg(
                    self.nodes@[u].desc.name@,
                    self.nodes@[u].desc.node_type@,
                    "node cannot connect to itself"@,
                )),
    {
        let mut this = self;
        let ghost orig_nodes = this.nodes@;
        let p = implicits.len();
        let user_count = this.nodes.len();
        let total = p + user_count;
        let mut node_names: Vec<String> = Vec::new();
        let mut node_list: Vec<NodeInfo> = Vec::new();
        let mut ports: Vec<PortInfo> = Vec::new();
        for i in 0..p
            invariant
                p == implicits@.len(),
                user_count == orig_nodes.len(),
                orig_nodes == self.nodes@,
                this.nodes@ == orig_nodes,
                this.debug == self.debug,
                node_names@.len() == i,
                node_list@.len() == i,
                ports@.len() == i,
                forall|k: int|
                    0 <= k < i ==> #[trigger] node_names@[k]@ == implicits@[k].name@,
                forall|k: int| #![trigger node_list@[k]]
                    0 <= k < i ==> node_list@[k].name@ == implicits@[k].name@
                        && node_list@[k].node_type@ == "implicit"@,
                forall|k: int| #![trigger ports@[k]]
                    0 <= k < i ==> ports@[k].ins@ == implicits@[k].inputs@ && ports@[k].outs@
                        == implicits@[k].outputs@ && !ports@[k].user_ins && !ports@[k].user_outs,
        {
            let inode = &implicits[i];
            node_names.push(inode.name.clone());
            node_list.push(
                NodeInfo {
                    name: inode.name.clone(),
                    node_type: String::from_str("implicit"),
                    node_config: NodeConfig::Implicit,
                },
            );
            let pi = PortInfo::from_implicit(inode);
            ports.push(pi);
            proof {
                assert(ports@[i as int].ins@ == implicits@[i as int].inputs@);
                assert(ports@[i as int].outs@ == implicits@[i as int].outputs@);
                assert(!ports@[i as int].user_ins && !ports@[i as int].user_outs);
            }
        }
        for u in 0..user_count
            invariant
                p == implicits@.len(),
                user_count == orig_nodes.len(),
                orig_nodes == self.nodes@,
                this.nodes@ == orig_nodes,
                this.debug == self.debug,
                node_names@.len() == p,
                node_list@.len() == p,
                ports@.len() == p + u,
                forall|k: int|
                    0 <= k < p ==> #[trigger] node_names@[k]@ == implicits@[k].name@,
                forall|k: int| #![trigger node_list@[k]]
                    0 <= k < p ==> node_list@[k].name@ == implicits@[k].name@
                        && node_list@[k].node_type@ == "implicit"@,
                forall|v: int|
                    0 <= v < u ==> (#[trigger] node_precheck_msg(orig_nodes[v], implicits@))
                        is None,
                forall|k: int| #![trigger ports@[k]]
                    0 <= k < p ==> ports@[k].ins@ == implicits@[k].inputs@ && ports@[k].outs@
                        == implicits@[k].outputs@ && !ports@[k].user_ins && !ports@[k].user_outs,
        {
            let desc = &this.nodes[u].desc;
            match position_of(&node_names, desc.name.as_str()) {
                Some(idx) => {
                    let e = err_at_node(desc, "cannot use reserved node name");
                    proof {
                        assert((implicits@[idx as int].name)@ == orig_nodes[u as int].desc.name@);
                        assert(name_reserved(orig_nodes[u as int], implicits@));
                        assert(node_precheck_msg(self.nodes@[u as int], implicits@) matches Some(m)
                            && e@ == m);
                    }
                    return Err(e);
                },
                None => {
                    proof {
                        crate::dependency_graph::lemma_str_position(node_names@, desc.name@);
                        assert forall|k: int|
                            0 <= k < p implies (#[trigger] implicits@[k].name)@
                            != orig_nodes[u as int].desc.name@ by {
                            assert(node_names@[k]@ == implicits@[k].name@);
                        }
                        assert(!name_reserved(orig_nodes[u as int], implicits@));
                    }
                },
            }
            if !nodes::is_valid_type(desc.node_type.as_str()) {
                let e = err_at_node(desc, "unknown node type");
                proof {
                    assert(node_precheck_msg(self.nodes@[u as int], implicits@) matches Some(m)
                        && e@ == m);
                }
                return Err(e);
            }
            ports.push(
                PortInfo::new(
                    desc.node_type.as_str(),
                    &this.nodes[u].named_ins,
                    &this.nodes[u].named_outs,
                ),
            );
        }
        for u in 0..user_count
            invariant
                p == implicits@.len(),
                user_count == orig_nodes.len(),
                orig_nodes == self.nodes@,
                this.nodes@ == orig_nodes,
                this.debug == self.debug,
                node_names@.len() == p + u,
                node_list@.len() == p,
                ports@.len() == p + user_count,
                forall|k: int|
                    0 <= k < p ==> #[trigger] node_names@[k]@ == implicits@[k].name@,
                forall|k: int| #![trigger node_list@[k]]
                    0 <= k < p ==> node_list@[k].name@ == implicits@[k].name@
                        && node_list@[k].node_type@ == "implicit"@,
                forall|v: int|
                    0 <= v < user_count ==> (#[trigger] node_precheck_msg(
                        orig_nodes[v],
                        implicits@,
                    )) is None,
                forall|k: int|
                    0 <= k < u ==> #[trigger] node_names@[p + k]@ == orig_nodes[k].desc.name@,
                forall|v: int| 0 <= v < u ==> !(#[trigger] dup_name_at(orig_nodes, v)),
                forall|k: int| #![trigger ports@[k]]
                    0 <= k < p ==> ports@[k].ins@ == implicits@[k].inputs@ && ports@[k].outs@
                        == implicits@[k].outputs@ && !ports@[k].user_ins && !ports@[k].user_outs,
        {
            let name = &this.nodes[u].desc.name;
            match position_of(&node_names, name.as_str()) {
                Some(idx) => {
                    let e = String::from_str("multiple definitions of node `").concat(
                        name.as_str(),
                    ).concat("`");
                    proof {
                        assert(node_precheck_msg(orig_nodes[u as int], implicits@) is None);
                        if idx < p {
                            assert((implicits@[idx as int].name)@
                                == orig_nodes[u as int].desc.name@);
                            assert(name_reserved(orig_nodes[u as int], implicits@));
                            assert(false);
                        }
                        assert(node_names@[p + (idx - p)]@ == orig_nodes[idx - p].desc.name@);
                        assert((orig_nodes[idx - p].desc.name)@ == orig_nodes[u as int].desc.name@);
                        assert(dup_name_at(orig_nodes, u as int));
                        assert(e@ == "multiple definitions of node `"@
                            + self.nodes@[u as int].desc.name@ + "`"@);
                    }
                    return Err(e);
                },
                None => {
                    proof {
                        crate::dependency_graph::lemma_str_position(node_names@, name@);
                        assert forall|v: int|
                            0 <= v < u implies (#[trigger] orig_nodes[v].desc.name)@
                            != orig_nodes[u as int].desc.name@ by {
                            assert(node_names@[p + v]@ == orig_nodes[v].desc.name@);
                        }
                        assert(!dup_name_at(orig_nodes, u as int));
                    }
                },
            }
            node_names.push(name.clone());
        }
        for u in 0..user_count
            invariant
                p == implicits@.len(),
                user_count == orig_nodes.len(),
                orig_nodes == self.nodes@,
                this.nodes@ == orig_nodes,
                this.debug == self.debug,
                node_names@.len() == p + user_count,
                node_list@.len() == p,
                ports@.len() == p + user_count,
                forall|k: int|
                    0 <= k < p ==> #[trigger] node_names@[k]@ == implicits@[k].name@,
                forall|k: int| #![trigger node_list@[k]]
                    0 <= k < p ==> node_list@[k].name@ == implicits@[k].name@
                        && node_list@[k].node_type@ == "implicit"@,
                forall|v: int|
                    0 <= v < user_count ==> (#[trigger] node_precheck_msg(
                        orig_nodes[v],
                        implicits@,
                    )) is None,
                forall|k: int|
                    0 <= k < user_count ==> #[trigger] node_names@[p + k]@
                        == orig_nodes[k].desc.name@,
                forall|v: int| 0 <= v < user_count ==> !(#[trigger] dup_name_at(orig_nodes, v)),
                forall|v: int| 0 <= v < u ==> !(#[trigger] has_self_link(orig_nodes[v])),
                forall|k: int| #![trigger ports@[k]]
                    0 <= k < p ==> ports@[k].ins@ == implicits@[k].inputs@ && ports@[k].outs@
                        == implicits@[k].outputs@ && !ports@[k].user_ins && !ports@[k].user_outs,
        {
            let n_links = this.nodes[u].links.len();
            for j in 0..n_links
                invariant
                    user_count == orig_nodes.len(),
                    orig_nodes == self.nodes@,
                    this.nodes@ == orig_nodes,
                    u < user_count,
                    p == implicits@.len(),
                    n_links == orig_nodes[u as int].links@.len(),
                    forall|v: int|
                        0 <= v < user_count ==> (#[trigger] node_precheck_msg(
                            orig_nodes[v],
                            implicits@,
                        )) is None,
                    forall|v: int|
                        0 <= v < user_count ==> !(#[trigger] dup_name_at(orig_nodes, v)),
                    forall|v: int| 0 <= v < u ==> !(#[trigger] has_self_link(orig_nodes[v])),
                    forall|jj: int|
                        0 <= jj < j ==> !((#[trigger] orig_nodes[u as int].links@[jj]).from.node
                            matches Some(a) && (orig_nodes[u as int].links@[jj].to.node
                            matches Some(b) && a@ == b@)),
            {
                let link = &this.nodes[u].links[j];
                let is_self = match (&link.from.node, &link.to.node) {
                    (Some(a), Some(b)) => crate::util::str_eq(a.as_str(), b.as_str()),
                    _ => false,
                };
                if is_self {
                    let e = err_at_node(&this.nodes[u].desc, "node cannot connect to itself");
                    proof {
                        assert(has_self_link(orig_nodes[u as int]));
                        assert(e@ == err_at_node_msg(
                            self.nodes@[u as int].desc.name@,
                            self.nodes@[u as int].desc.node_type@,
                            "node cannot connect to itself"@,
                        ));
                    }
                    return Err(e);
                }
            }
            proof {
                assert(!has_self_link(orig_nodes[u as int]));
            }
        }
        let mut linked_inputs: Vec<usize> = Vec::new();
        let names_len = node_names.len();
        for i in 0..names_len
            invariant
                linked_inputs@.len() == i,
        {
            linked_inputs.push(0);
        }
        let ghost ports_before = ports@;
        for u in 0..user_count
            invariant
                p == implicits@.len(),
                user_count == orig_nodes.len(),
                orig_nodes == self.nodes@,
                user_count == this.nodes@.len(),
                this.debug == self.debug,
                node_names@.len() == p + user_count,
                node_list@.len() == p,
                linked_inputs@.len() == node_names@.len(),
                ports_before.len() == node_names@.len(),
                ports_preserved(ports_before, ports@),
                forall|k: int|
                    0 <= k < user_count ==> (#[trigger] this.nodes@[k]).desc
                        == orig_nodes[k].desc,
                forall|k: int|
                    0 <= k < p ==> #[trigger] node_names@[k]@ == implicits@[k].name@,
                forall|k: int| #![trigger node_list@[k]]
                    0 <= k < p ==> node_list@[k].name@ == implicits@[k].name@
                        && node_list@[k].node_type@ == "implicit"@,
                forall|v: int|
                    0 <= v < user_count ==> (#[trigger] node_precheck_msg(
                        orig_nodes[v],
                        implicits@,
                    )) is None,
                forall|v: int|
                    0 <= v < user_count ==> !(#[trigger] dup_name_at(orig_nodes, v)),
                forall|v: int|
                    0 <= v < user_count ==> !(#[trigger] has_self_link(orig_nodes[v])),
                forall|k: int| #![trigger ports_before[k]]
                    0 <= k < p ==> ports_before[k].ins@ == implicits@[k].inputs@
                        && ports_before[k].outs@ == implicits@[k].outputs@
                        && !ports_before[k].user_ins && !ports_before[k].user_outs,
        {
            let ghost pp = ports@;
            let ghost nodes_pre = this.nodes@;
            match fixup_missing_port_names(
                &mut this.nodes[u],
                &node_names,
                &mut ports,
                &mut linked_inputs,
            ) {
                Ok(()) => {},
                Err(e) => {
                    let desc = &this.nodes[u].desc;
                    let wrapped = err_at_node(desc, e.as_str());
                    return Err(wrapped);
                },
            }
            proof {
                lemma_ports_preserved_trans(ports_before, pp, ports@);
                assert forall|k: int|
                    0 <= k < user_count implies (#[trigger] this.nodes@[k]).desc
                    == orig_nodes[k].desc by {
                    if k != u as int {
                        assert(this.nodes@[k] == nodes_pre[k]);
                    }
                }
            }
        }
        for u in 0..user_count
            invariant
                p == implicits@.len(),
                user_count == orig_nodes.len(),
                orig_nodes == self.nodes@,
                user_count == this.nodes@.len(),
                this.debug == self.debug,
                p + user_count <= usize::MAX,
                ports@.len() == p + user_count,
                node_list@.len() == p + u,
                node_names@.len() == p + user_count,
                linked_inputs@.len() == node_names@.len(),
                ports_preserved(ports_before, ports@),
                ports_before.len() == node_names@.len(),
                forall|k: int|
                    0 <= k < user_count ==> (#[trigger] this.nodes@[k]).desc
                        == orig_nodes[k].desc,
                forall|k: int|
                    0 <= k < p ==> #[trigger] node_names@[k]@ == implicits@[k].name@,
                forall|k: int| #![trigger node_list@[k]]
                    0 <= k < p ==> node_list@[k].name@ == implicits@[k].name@
                        && node_list@[k].node_type@ == "implicit"@,
                forall|k: int| #![trigger node_list@[p + k]]
                    0 <= k < u ==> node_list@[p + k].name@ == orig_nodes[k].desc.name@
                        && node_list@[p + k].node_type@ == orig_nodes[k].desc.node_type@,
                forall|v: int|
                    0 <= v < user_count ==> (#[trigger] node_precheck_msg(
                        orig_nodes[v],
                        implicits@,
                    )) is None,
                forall|v: int|
                    0 <= v < user_count ==> !(#[trigger] dup_name_at(orig_nodes, v)),
                forall|v: int|
                    0 <= v < user_count ==> !(#[trigger] has_self_link(orig_nodes[v])),
                forall|k: int| #![trigger ports_before[k]]
                    0 <= k < p ==> ports_before[k].ins@ == implicits@[k].inputs@
                        && ports_before[k].outs@ == implicits@[k].outputs@
                        && !ports_before[k].user_ins && !ports_before[k].user_outs,
        {
            let ghost nodes_pre = this.nodes@;
            match make_node_info(&mut this.nodes[u], &ports[p + u]) {
                Ok(info) => {
                    node_list.push(info);
                },
                Err(e) => {
                    let desc = &this.nodes[u].desc;
                    let wrapped = err_at_node(desc, e.as_str());
                    return Err(wrapped);
                },
            }
            proof {
                assert forall|k: int|
                    0 <= k < user_count implies (#[trigger] this.nodes@[k]).desc
                    == orig_nodes[k].desc by {
                    if k != u as int {
                        assert(this.nodes@[k] == nodes_pre[k]);
                    }
                }
            }
        }
        let ghost ports_final = ports@;
        let ghost names_final = node_names@;
        let (input_names, output_names) = into_name_lists(ports);
        let mut graph = DependencyGraph::new(node_names, input_names, output_names);
        proof {
            assert forall|i: int| 0 <= i < implicits@.len() implies {
                &&& #[trigger] graph.node_name(i) == implicits@[i].name@
                &&& graph.spec_input_names(i) == implicits@[i].inputs@
                &&& graph.spec_output_names(i) == implicits@[i].outputs@
            } by {
                assert(graph.spec_input_names(i) == input_names@[i]@);
                assert(input_names@[i]@ == ports_final[i].ins@);
                assert(!ports_before[i].user_ins && !ports_before[i].user_outs);
                assert(ports_final[i].ins@ == ports_before[i].ins@);
                assert(ports_final[i].outs@ == ports_before[i].outs@);
                assert(graph.node_name(i) == names_final[i]@);
            }
        }
        for u in 0..user_count
            invariant
                user_count == orig_nodes.len(),
                orig_nodes == self.nodes@,
                user_count == this.nodes@.len(),
                this.debug == self.debug,
                p == implicits@.len(),
                p + user_count <= usize::MAX,
                node_list@.len() == p + user_count,
                graph.wf(),
                no_self_providers(graph),
                graph.spec_num_nodes() == p + user_count,
                forall|i: int|
                    0 <= i < implicits@.len() ==> #[trigger] graph.node_name(i)
                        == implicits@[i].name@,
                forall|i: int|
                    0 <= i < implicits@.len() ==> #[trigger] graph.spec_input_names(i)
                        == implicits@[i].inputs@,
                forall|i: int|
                    0 <= i < implicits@.len() ==> #[trigger] graph.spec_output_names(i)
                        == implicits@[i].outputs@,
                forall|k: int| #![trigger node_list@[k]]
                    0 <= k < p ==> node_list@[k].name@ == implicits@[k].name@
                        && node_list@[k].node_type@ == "implicit"@,
                forall|k: int| #![trigger node_list@[p + k]]
                    0 <= k < user_count ==> node_list@[p + k].name@ == orig_nodes[k].desc.name@
                        && node_list@[p + k].node_type@ == orig_nodes[k].desc.node_type@,
                forall|v: int|
                    0 <= v < user_count ==> (#[trigger] node_precheck_msg(
                        orig_nodes[v],
                        implicits@,
                    )) is None,
                forall|v: int|
                    0 <= v < user_count ==> !(#[trigger] dup_name_at(orig_nodes, v)),
                forall|v: int|
                    0 <= v < user_count ==> !(#[trigger] has_self_link(orig_nodes[v])),
        {
            let desc_name = this.nodes[u].desc.name.clone();
            let desc_type = this.nodes[u].desc.node_type.clone();
            let n_links = this.nodes[u].links.len();
            for j in 0..n_links
                invariant
                    user_count == orig_nodes.len(),
                    orig_nodes == self.nodes@,
                    user_count == this.nodes@.len(),
                    u < user_count,
                    n_links == this.nodes@[u as int].links@.len(),
                    graph.wf(),
                    no_self_providers(graph),
                    graph.spec_num_nodes() == p + user_count,
                    p == implicits@.len(),
                    forall|i: int|
                        0 <= i < implicits@.len() ==> #[trigger] graph.node_name(i)
                            == implicits@[i].name@,
                    forall|i: int|
                        0 <= i < implicits@.len() ==> #[trigger] graph.spec_input_names(i)
                            == implicits@[i].inputs@,
                    forall|i: int|
                        0 <= i < implicits@.len() ==> #[trigger] graph.spec_output_names(i)
                            == implicits@[i].outputs@,
                    forall|v: int|
                        0 <= v < user_count ==> (#[trigger] node_precheck_msg(
                            orig_nodes[v],
                            implicits@,
                        )) is None,
                    forall|v: int|
                        0 <= v < user_count ==> !(#[trigger] dup_name_at(orig_nodes, v)),
                    forall|v: int|
                        0 <= v < user_count ==> !(#[trigger] has_self_link(orig_nodes[v])),
            {
                let ghost g_before = graph;
                match add_link_to_graph(
                    &mut graph,
                    &this.nodes[u].links[j],
                    desc_name.as_str(),
                    desc_type.as_str(),
                ) {
                    Ok(()) => {},
                    Err(e) => {
                        return Err(e);
                    },
                }
                proof {
                    assert forall|i: int|
                        0 <= i < implicits@.len() implies #[trigger] graph.node_name(i)
                        == implicits@[i].name@ by {
                        assert(g_before.node_name(i) == implicits@[i].name@);
                        assert(graph.node_names == g_before.node_names);
                    }
                    assert forall|i: int|
                        0 <= i < implicits@.len() implies #[trigger] graph.spec_input_names(i)
                        == implicits@[i].inputs@ by {
                        assert(g_before.spec_input_names(i) == implicits@[i].inputs@);
                        assert(graph.input_names == g_before.input_names);
                    }
                    assert forall|i: int|
                        0 <= i < implicits@.len() implies #[trigger] graph.spec_output_names(i)
                        == implicits@[i].outputs@ by {
                        assert(g_before.spec_output_names(i) == implicits@[i].outputs@);
                        assert(graph.output_names == g_before.output_names);
                    }
                }
            }
        }
        Ok(
            Config {
                n_nodes: total,
                n_implicits: p,
                node_list,
                graph,
                debug: this.debug,
            },
        )
    }
}

impl Config {
    /// Parses the configuration bytes and compiles them against the
    /// implicit nodes; a parse failure and a semantic failure carry their
    /// own prefixes.
    pub fn new(config_bytes: Vec<u8>, implicits: &Vec<ImplicitNode>) -> (r: Result<Config, String>)
        ensures
            crate::json::config_json_parsed(config_bytes@) is Err ==> (r matches Err(m) && m@
                == "failed parsing configuration: "@ + crate::json::config_json_parsed(
                config_bytes@,
            )->Err_0),
            (crate::json::config_json_parsed(config_bytes@) matches Ok(v) && (v
                matches JsonValue::Object(_) && (v.spec_get("nodes"@) matches Some(arr) && (*arr
                matches JsonValue::Array(items) && items@.len() == 0)) && (match v.spec_get(
                "debug"@,
            ) {
                Some(x) => *x matches JsonValue::Bool(_),
                None => true,
            }))) ==> r is Ok,
            r matches Err(e) ==> (crate::nodes::starts_with(e@, "failed parsing configuration: "@)
                || crate::nodes::starts_with(e@, "failed checking configuration: "@)),
            match r {
                Ok(cfg) => {
                    &&& cfg.graph.wf()
                    &&& cfg.n_implicits == implicits@.len()
                    &&& cfg.n_nodes >= implicits@.len()
                    &&& cfg.graph.spec_num_nodes() == cfg.n_nodes
                    &&& cfg.node_list@.len() == cfg.n_nodes
                    &&& no_self_providers(cfg.graph)
                    &&& forall|i: int|
                        0 <= i < implicits@.len() ==> #[trigger] cfg.graph.node_name(i)
                            == implicits@[i].name@
                    &&& forall|i: int|
                        0 <= i < implicits@.len() ==> #[trigger] cfg.graph.spec_input_names(i)
                            == implicits@[i].inputs@
                    &&& forall|i: int|
                        0 <= i < implicits@.len() ==> #[trigger] cfg.graph.spec_output_names(i)
                            == implicits@[i].outputs@
                },
                Err(_) => true,
            },
    {
        let v = match crate::json::parse_config_json(config_bytes.as_slice()) {
            Ok(v) => v,
            Err(e) => {
                let msg = String::from_str("failed parsing configuration: ").concat(e.as_str());
                proof {
                    assert(msg@.subrange(0, "failed parsing configuration: "@.len() as int)
                        =~= "failed parsing configuration: "@);
                }
                return Err(msg);
            },
        };
        let uc = match parse_user_config(&v) {
            Ok(uc) => uc,
            Err(e) => {
                let msg = String::from_str("failed parsing configuration: ").concat(e.as_str());
                proof {
                    assert(msg@.subrange(0, "failed parsing configuration: "@.len() as int)
                        =~= "failed parsing configuration: "@);
                }
                return Err(msg);
            },
        };
        if usize::MAX - implicits.len() < uc.nodes.len() {
            let msg = String::from_str("failed checking configuration: ").concat("too many nodes");
            proof {
                assert(msg@.subrange(0, "failed checking configuration: "@.len() as int)
                    =~= "failed checking configuration: "@);
            }
            return Err(msg);
        }
        match uc.into_config(implicits) {
            Ok(config) => Ok(config),
            Err(e) => {
                let msg = String::from_str("failed checking configuration: ").concat(e.as_str());
                proof {
                    assert(msg@.subrange(0, "failed checking configuration: "@.len() as int)
                        =~= "failed checking configuration: "@);
                }
                Err(msg)
            },
        }
    }

    pub fn debug(&self) -> (r: bool)
        ensures
            r == self.debug,
    {
        self.debug
    }

    pub fn node_count(&self) -> (r: usize)
        ensures
            r == self.n_nodes,
    {
        self.n_nodes
    }

    pub fn number_of_implicits(&self) -> (r: usize)
        ensures
            r == self.n_implicits,
    {
        self.n_implicits
    }

    /// The compiled name of a node.
    pub fn get_node_name(&self, i: usize) -> (r: &str)
        requires
            i < self.node_list@.len(),
        ensures
            r@ == self.node_list@[i as int].name@,
    {
        self.node_list[i].name.as_str()
    }

    /// The type tag of a node.
    pub fn get_node_type(&self, i: usize) -> (r: &str)
        requires
            i < self.node_list@.len(),
        ensures
            r@ == self.node_list@[i as int].node_type@,
    {
        self.node_list[i].node_type.as_str()
    }

    /// Every node's name and type, in index order.
    pub fn node_types(&self) -> (r: Vec<(String, String)>)
        ensures
            r@.len() == self.node_list@.len(),
            forall|i: int| #![trigger r@[i]]
                0 <= i < r@.len() ==> r@[i].0@ == self.node_list@[i].name@ && r@[i].1@
                    == self.node_list@[i].node_type@,
    {
        let mut out: Vec<(String, String)> = Vec::new();
        let n = self.node_list.len();
        for i in 0..n
            invariant
                n == self.node_list@.len(),
                out@.len() == i,
                forall|k: int| #![trigger out@[k]]
                    0 <= k < i ==> out@[k].0@ == self.node_list@[k].name@ && out@[k].1@
                        == self.node_list@[k].node_type@,
        {
            out.push((self.node_list[i].name.clone(), self.node_list[i].node_type.clone()));
        }
        out
    }

    pub fn get_graph(&self) -> (r: &DependencyGraph)
        ensures
            r == &self.graph,
    {
        &self.graph
    }

    /// Instantiates one node per compiled configuration, in index order:
    /// each instance matches its configuration's variant and settings.
    pub fn build_nodes(&self) -> (r: Vec<crate::nodes::NodeInstance>)
        ensures
            r@.len() == self.node_list@.len(),
            forall|i: int|
                0 <= i < r@.len() ==> crate::nodes::instance_of(
                    self.node_list@[i].node_config,
                    #[trigger] r@[i],
                ),
    {
        let mut out: Vec<crate::nodes::NodeInstance> = Vec::new();
        let n = self.node_list.len();
        for i in 0..n
            invariant
                n == self.node_list@.len(),
                out@.len() == i,
                forall|k: int|
                    0 <= k < i ==> crate::nodes::instance_of(
                        self.node_list@[k].node_config,
                        #[trigger] out@[k],
                    ),
        {
            out.push(crate::nodes::NodeInstance::from_config(&self.node_list[i].node_config));
        }
        out
    }
}

/// The built-in pseudo-nodes of the HTTP envelopes, in their fixed index
/// order: `request`, `service_request`, `service_response`, `response`.
pub fn standard_implicits() -> (r: Vec<ImplicitNode>)
    ensures
        r@.len() == 4,
        r@[0].inputs@.len() == 0 && r@[0].outputs@.len() == 3,
        r@[1].inputs@.len() == 3 && r@[1].outputs@.len() == 2,
        r@[2].inputs@.len() == 0 && r@[2].outputs@.len() == 2,
        r@[3].inputs@.len() == 2 && r@[3].outputs@.len() == 2,
{
    let req_out = match PortConfig::names(&["body", "headers", "query"]) {
        Some(v) => v,
        None => Vec::new(),
    };
    let sreq_in = match PortConfig::names(&["body", "headers", "query"]) {
        Some(v) => v,
        None => Vec::new(),
    };
    let resp_ports = match PortConfig::names(&["body", "headers"]) {
        Some(v) => v,
        None => Vec::new(),
    };
    let sreq_out = match PortConfig::names(&["body", "headers"]) {
        Some(v) => v,
        None => Vec::new(),
    };
    let sresp_out = match PortConfig::names(&["body", "headers"]) {
        Some(v) => v,
        None => Vec::new(),
    };
    let resp_in = match PortConfig::names(&["body", "headers"]) {
        Some(v) => v,
        None => Vec::new(),
    };
    let mut out: Vec<ImplicitNode> = Vec::new();
    out.push(ImplicitNode::new("request", Vec::new(), req_out));
    out.push(ImplicitNode::new("service_request", sreq_in, sreq_out));
    out.push(ImplicitNode::new("service_response", Vec::new(), sresp_out));
    out.push(ImplicitNode::new("response", resp_in, resp_ports));
    out
}

} // verus!
