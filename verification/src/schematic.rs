use vstd::prelude::*;

verus! {

/// Position of a node in a schematic.
pub type NodeIndex = usize;

/// Position of a port among the inputs (or outputs) of its node.
pub type PortIndex = usize;

/// Position of a connection in a schematic.
pub type ConnectionIndex = usize;

/// Name of the node through which data enters a schematic.
pub const SCHEMATIC_INPUT: &'static str = "<input>";

/// Name of the node through which data leaves a schematic.
pub const SCHEMATIC_OUTPUT: &'static str = "<output>";

/// Whether a port receives data (`In`) or emits data (`Out`).
#[derive(Debug, Clone, Copy, PartialEq, Eq, Structural)]
pub enum PortDirection {
    In,
    Out,
}

/// Names one port of one node.
#[derive(Debug, Clone, Copy, PartialEq, Eq, Structural)]
pub struct PortReference {
    pub node_index: NodeIndex,
    pub port_index: PortIndex,
    pub direction: PortDirection,
}

impl PortReference {
    pub fn new(node_index: NodeIndex, port_index: PortIndex, direction: PortDirection) -> (r: Self)
        ensures
            r == (PortReference { node_index, port_index, direction }),
    {
        PortReference { node_index, port_index, direction }
    }
}

/// A port of a node, with the connections that touch it.
#[derive(Debug)]
pub struct NodePort {
    pub name: String,
    pub detail: PortReference,
    pub connections: Vec<ConnectionIndex>,
}

impl NodePort {
    pub fn name(&self) -> (r: &str)
        ensures
            r@ == self.name@,
    {
        self.name.as_str()
    }

    pub fn detail(&self) -> (r: PortReference)
        ensures
            r == self.detail,
    {
        self.detail
    }

    pub fn connections(&self) -> (r: &Vec<ConnectionIndex>)
        ensures
            r@ == self.connections@,
    {
        &self.connections
    }
}

/// A node of a schematic: its name, its position, its ports and its payload.
#[derive(Debug)]
pub struct Node<DATA> {
    pub name: String,
    pub index: NodeIndex,
    pub inputs: Vec<NodePort>,
    pub outputs: Vec<NodePort>,
    pub data: DATA,
}

impl<DATA> Node<DATA> {
    pub fn name(&self) -> (r: &str)
        ensures
            r@ == self.name@,
    {
        self.name.as_str()
    }

    pub fn index(&self) -> (r: NodeIndex)
        ensures
            r == self.index,
    {
        self.index
    }

    pub fn inputs(&self) -> (r: &Vec<NodePort>)
        ensures
            r@ == self.inputs@,
    {
        &self.inputs
    }

    pub fn outputs(&self) -> (r: &Vec<NodePort>)
        ensures
            r@ == self.outputs@,
    {
        &self.outputs
    }

    /// The connections that end at input port `port`, if the node has that port.
    pub fn input_connections(&self, port: PortIndex) -> (r: Option<&Vec<ConnectionIndex>>)
        ensures
            port < self.inputs@.len() ==> (r matches Some(c) && c@ == self.inputs@[port as int].connections@),
            port >= self.inputs@.len() ==> r is None,
    {
        if port < self.inputs.len() {
            Some(&self.inputs[port].connections)
        } else {
            None
        }
    }

    /// The connections that start at output port `port`, if the node has that port.
    pub fn output_connections(&self, port: PortIndex) -> (r: Option<&Vec<ConnectionIndex>>)
        ensures
            port < self.outputs@.len() ==> (r matches Some(c) && c@ == self.outputs@[port as int].connections@),
            port >= self.outputs@.len() ==> r is None,
    {
        if port < self.outputs.len() {
            Some(&self.outputs[port].connections)
        } else {
            None
        }
    }
}

/// An edge from an output port to an input port.
#[derive(Debug)]
pub struct Connection<DATA> {
    pub from: PortReference,
    pub to: PortReference,
    pub index: ConnectionIndex,
    pub data: DATA,
}

impl<DATA> Connection<DATA> {
    /// The end of the connection that touches a port of the given direction:
    /// the `to` port for an input port, the `from` port for an output port.
    pub open spec fn end_at(&self, direction: PortDirection) -> PortReference {
        match direction {
            PortDirection::In => self.to,
            PortDirection::Out => self.from,
        }
    }
}

/// A directed graph of nodes whose ports are joined by connections.
#[derive(Debug)]
pub struct Schematic<DATA> {
    pub name: String,
    pub input: NodeIndex,
    pub output: NodeIndex,
    pub nodes: Vec<Node<DATA>>,
    pub connections: Vec<Connection<DATA>>,
}

impl<DATA> Schematic<DATA> {
    /// The input ports (`In`) or the output ports (`Out`) of node `node`.
    pub open spec fn ports_of(&self, node: int, direction: PortDirection) -> Seq<NodePort> {
        match direction {
            PortDirection::In => self.nodes@[node].inputs@,
            PortDirection::Out => self.nodes@[node].outputs@,
        }
    }

    /// `p` names a port that exists in this schematic.
    pub open spec fn valid_port(&self, p: PortReference) -> bool {
        &&& p.node_index < self.nodes@.len()
        &&& p.port_index < self.ports_of(p.node_index as int, p.direction).len()
    }

    pub open spec fn port_at(&self, p: PortReference) -> NodePort {
        self.ports_of(p.node_index as int, p.direction)[p.port_index as int]
    }

    /// The connections recorded on port `p`.
    pub open spec fn port_connections(&self, p: PortReference) -> Seq<ConnectionIndex> {
        self.port_at(p).connections@
    }

    /// The schematic is consistent: every node and connection knows its own
    /// position, every port knows its own reference, every connection goes
    /// from an existing output port to an existing input port, and the
    /// connections recorded on a port are exactly those that touch it.
    pub open spec fn wf(&self) -> bool {
        &&& self.input < self.nodes@.len()
        &&& self.output < self.nodes@.len()
        &&& forall|n: int| 0 <= n < self.nodes@.len() ==> #[trigger] self.nodes@[n].index == n
        &&& forall|p: PortReference| #[trigger]
            self.valid_port(p) ==> self.port_at(p).detail == p
        &&& forall|p: PortReference, k: int|
            self.valid_port(p) && 0 <= k < self.port_connections(p).len() ==> {
                let c = #[trigger] self.port_connections(p)[k];
                &&& c < self.connections@.len()
                &&& self.connections@[c as int].end_at(p.direction) == p
            }
        &&& forall|c: int|
            0 <= c < self.connections@.len() ==> {
                let conn = #[trigger] self.connections@[c];
                &&& conn.index == c
                &&& conn.from.direction == PortDirection::Out
                &&& conn.to.direction == PortDirection::In
                &&& self.valid_port(conn.from)
                &&& self.valid_port(conn.to)
                &&& self.port_connections(conn.from).contains(c as ConnectionIndex)
                &&& self.port_connections(conn.to).contains(c as ConnectionIndex)
            }
    }

    /// The nodes keep their names, positions and payloads, and the
    /// schematic keeps its name, its connections and its input and output.
    pub open spec fn same_nodes_and_connections(&self, other: &Self) -> bool {
        &&& self.name == other.name
        &&& self.input == other.input
        &&& self.output == other.output
        &&& self.connections@ == other.connections@
        &&& self.nodes@.len() == other.nodes@.len()
        &&& forall|n: int|
            0 <= n < self.nodes@.len() ==> {
                &&& (#[trigger] self.nodes@[n]).name == other.nodes@[n].name
                &&& self.nodes@[n].index == other.nodes@[n].index
                &&& self.nodes@[n].data == other.nodes@[n].data
            }
    }

    /// Creates a schematic that holds only its input node (`<input>`, at
    /// position 0) and its output node (`<output>`, at position 1), neither
    /// of which has a port yet.
    pub fn new(name: String, input_data: DATA, output_data: DATA) -> (s: Self)
        ensures
            s.wf(),
            s.name == name,
            s.input == 0,
            s.output == 1,
            s.nodes@.len() == 2,
            s.nodes@[0].name@ == SCHEMATIC_INPUT@,
            s.nodes@[1].name@ == SCHEMATIC_OUTPUT@,
            s.nodes@[0].data == input_data,
            s.nodes@[1].data == output_data,
            s.nodes@[0].inputs@.len() == 0,
            s.nodes@[0].outputs@.len() == 0,
            s.nodes@[1].inputs@.len() == 0,
            s.nodes@[1].outputs@.len() == 0,
            s.connections@.len() == 0,
    {
        let input_node = Node {
            name: String::from_str(SCHEMATIC_INPUT),
            index: 0,
            inputs: Vec::new(),
            outputs: Vec::new(),
            data: input_data,
        };
        let output_node = Node {
            name: String::from_str(SCHEMATIC_OUTPUT),
            index: 1,
            inputs: Vec::new(),
            outputs: Vec::new(),
            data: output_data,
        };
        let mut nodes = Vec::new();
        nodes.push(input_node);
        nodes.push(output_node);
        let s = Schematic { name, input: 0, output: 1, nodes, connections: Vec::new() };
        assert forall|p: PortReference| !s.valid_port(p) by {
            if p.node_index < 2 {
                assert(s.ports_of(p.node_index as int, p.direction).len() == 0);
            }
        }
        s
    }

    /// Appends a node without ports and returns its position.
    pub fn add_node(&mut self, name: String, data: DATA) -> (idx: NodeIndex)
        requires
            old(self).wf(),
            old(self).nodes@.len() < usize::MAX,
        ensures
            final(self).wf(),
            idx == old(self).nodes@.len(),
            final(self).nodes@.len() == old(self).nodes@.len() + 1,
            forall|n: int| 0 <= n < old(self).nodes@.len() ==> final(self).nodes@[n] == old(self).nodes@[n],
            final(self).nodes@[idx as int].name == name,
            final(self).nodes@[idx as int].index == idx,
            final(self).nodes@[idx as int].data == data,
            final(self).nodes@[idx as int].inputs@.len() == 0,
            final(self).nodes@[idx as int].outputs@.len() == 0,
            final(self).name == old(self).name,
            final(self).input == old(self).input,
            final(self).output == old(self).output,
            final(self).connections@ == old(self).connections@,
            forall|p: PortReference| #[trigger] final(self).valid_port(p) <==> old(self).valid_port(p),
            forall|p: PortReference| old(self).valid_port(p) ==> #[trigger] final(self).port_at(p) == old(self).port_at(p),
    {
        let idx = self.nodes.len();
        let node = Node { name, index: idx, inputs: Vec::new(), outputs: Vec::new(), data };
        self.nodes.push(node);
        proof {
            let s = *self;
            let o = *old(self);
            assert forall|p: PortReference| s.valid_port(p) <==> o.valid_port(p) by {
                if p.node_index == idx {
                    assert(s.ports_of(p.node_index as int, p.direction).len() == 0);
                } else if p.node_index < idx {
                    assert(s.nodes@[p.node_index as int] == o.nodes@[p.node_index as int]);
                }
            }
            assert forall|p: PortReference| o.valid_port(p) implies #[trigger] s.port_at(p) == o.port_at(p) by {
                assert(s.nodes@[p.node_index as int] == o.nodes@[p.node_index as int]);
            }
            assert forall|p: PortReference, k: int|
                s.valid_port(p) && 0 <= k < s.port_connections(p).len() implies {
                    let c = #[trigger] s.port_connections(p)[k];
                    &&& c < s.connections@.len()
                    &&& s.connections@[c as int].end_at(p.direction) == p
                } by {
                assert(s.port_at(p) == o.port_at(p));
                assert(s.port_connections(p)[k] == o.port_connections(p)[k]);
            }
            assert forall|c: int| 0 <= c < s.connections@.len() implies {
                let conn = #[trigger] s.connections@[c];
                &&& s.valid_port(conn.from)
                &&& s.valid_port(conn.to)
                &&& s.port_connections(conn.from).contains(c as ConnectionIndex)
                &&& s.port_connections(conn.to).contains(c as ConnectionIndex)
            } by {
                let conn = s.connections@[c];
                assert(o.connections@[c] == conn);
                assert(s.port_at(conn.from) == o.port_at(conn.from));
                assert(s.port_at(conn.to) == o.port_at(conn.to));
            }
        }
        idx
    }

    /// Appends a port without connections to the inputs (`In`) or the
    /// outputs (`Out`) of node `node`, and returns its reference.
    pub fn add_port(&mut self, node: NodeIndex, name: String, direction: PortDirection) -> (r: PortReference)
        requires
            old(self).wf(),
            node < old(self).nodes@.len(),
            old(self).ports_of(node as int, direction).len() < usize::MAX,
        ensures
            final(self).wf(),
            r == (PortReference {
                node_index: node,
                port_index: old(self).ports_of(node as int, direction).len() as PortIndex,
                direction,
            }),
            final(self).same_nodes_and_connections(old(self)),
            final(self).valid_port(r),
            final(self).port_at(r).name == name,
            final(self).port_connections(r).len() == 0,
            forall|p: PortReference| #[trigger] final(self).valid_port(p) <==> (old(self).valid_port(p) || p == r),
            forall|p: PortReference| old(self).valid_port(p) ==> #[trigger] final(self).port_at(p) == old(self).port_at(p),
    {
        let ghost o = *self;
        let port_index = match direction {
            PortDirection::In => self.nodes[node].inputs.len(),
            PortDirection::Out => self.nodes[node].outputs.len(),
        };
        let r = PortReference { node_index: node, port_index, direction };
        let port = NodePort { name, detail: r, connections: Vec::new() };
        match direction {
            PortDirection::In => self.nodes[node].inputs.push(port),
            PortDirection::Out => self.nodes[node].outputs.push(port),
        }
        proof {
            let s = *self;
            assert forall|n: int| 0 <= n < s.nodes@.len() && n != node implies s.nodes@[n] == o.nodes@[n] by {}
            assert(s.ports_of(node as int, direction) == o.ports_of(node as int, direction).push(port));
            assert forall|p: PortReference| #[trigger] s.valid_port(p) <==> (o.valid_port(p) || p == r) by {
                if p.node_index >= s.nodes@.len() {
                } else if p.node_index != node {
                    assert(s.nodes@[p.node_index as int] == o.nodes@[p.node_index as int]);
                } else if p.direction != direction {
                    assert(s.ports_of(node as int, p.direction) == o.ports_of(node as int, p.direction));
                }
            }
            assert forall|p: PortReference| o.valid_port(p) implies #[trigger] s.port_at(p) == o.port_at(p) by {
                if p.node_index != node {
                    assert(s.nodes@[p.node_index as int] == o.nodes@[p.node_index as int]);
                } else if p.direction != direction {
                    assert(s.ports_of(node as int, p.direction) == o.ports_of(node as int, p.direction));
                }
            }
            assert forall|p: PortReference| s.valid_port(p) implies #[trigger] s.port_at(p).detail == p by {
                if p != r {
                    assert(s.port_at(p) == o.port_at(p));
                }
            }
            assert forall|p: PortReference, k: int|
                s.valid_port(p) && 0 <= k < s.port_connections(p).len() implies {
                    let c = #[trigger] s.port_connections(p)[k];
                    &&& c < s.connections@.len()
                    &&& s.connections@[c as int].end_at(p.direction) == p
                } by {
                if p != r {
                    assert(s.port_at(p) == o.port_at(p));
                    assert(s.port_connections(p)[k] == o.port_connections(p)[k]);
                }
            }
            assert forall|c: int| 0 <= c < s.connections@.len() implies {
                let conn = #[trigger] s.connections@[c];
                &&& s.valid_port(conn.from)
                &&& s.valid_port(conn.to)
                &&& s.port_connections(conn.from).contains(c as ConnectionIndex)
                &&& s.port_connections(conn.to).contains(c as ConnectionIndex)
            } by {
                let conn = s.connections@[c];
                assert(o.connections@[c] == conn);
                assert(s.port_at(conn.from) == o.port_at(conn.from));
                assert(s.port_at(conn.to) == o.port_at(conn.to));
            }
        }
        r
    }

    /// Appends an input port named `name` to node `node`.
    pub fn add_input(&mut self, node: NodeIndex, name: String) -> (r: PortReference)
        requires
            old(self).wf(),
            node < old(self).nodes@.len(),
            old(self).nodes@[node as int].inputs@.len() < usize::MAX,
        ensures
            final(self).wf(),
            r == (PortReference {
                node_index: node,
                port_index: old(self).nodes@[node as int].inputs@.len() as PortIndex,
                direction: PortDirection::In,
            }),
            final(self).same_nodes_and_connections(old(self)),
            final(self).valid_port(r),
            final(self).port_at(r).name == name,
            final(self).port_connections(r).len() == 0,
            forall|p: PortReference| #[trigger] final(self).valid_port(p) <==> (old(self).valid_port(p) || p == r),
            forall|p: PortReference| old(self).valid_port(p) ==> #[trigger] final(self).port_at(p) == old(self).port_at(p),
    {
        self.add_port(node, name, PortDirection::In)
    }

    /// Appends an output port named `name` to node `node`.
    pub fn add_output(&mut self, node: NodeIndex, name: String) -> (r: PortReference)
        requires
            old(self).wf(),
            node < old(self).nodes@.len(),
            old(self).nodes@[node as int].outputs@.len() < usize::MAX,
        ensures
            final(self).wf(),
            r == (PortReference {
                node_index: node,
                port_index: old(self).nodes@[node as int].outputs@.len() as PortIndex,
                direction: PortDirection::Out,
            }),
            final(self).same_nodes_and_connections(old(self)),
            final(self).valid_port(r),
            final(self).port_at(r).name == name,
            final(self).port_connections(r).len() == 0,
            forall|p: PortReference| #[trigger] final(self).valid_port(p) <==> (old(self).valid_port(p) || p == r),
            forall|p: PortReference| old(self).valid_port(p) ==> #[trigger] final(self).port_at(p) == old(self).port_at(p),
    {
        self.add_port(node, name, PortDirection::Out)
    }

    /// Joins output port `from` to input port `to`, records the new
    /// connection on both ports, and returns its position.
    pub fn connect(&mut self, from: PortReference, to: PortReference, data: DATA) -> (c: ConnectionIndex)
        requires
            old(self).wf(),
            old(self).valid_port(from),
            old(self).valid_port(to),
            from.direction == PortDirection::Out,
            to.direction == PortDirection::In,
            old(self).connections@.len() < usize::MAX,
            old(self).port_connections(from).len() < usize::MAX,
            old(self).port_connections(to).len() < usize::MAX,
        ensures
            final(self).wf(),
            c == old(self).connections@.len(),
            final(self).connections@ == old(self).connections@.push(Connection { from, to, index: c, data }),
            final(self).name == old(self).name,
            final(self).input == old(self).input,
            final(self).output == old(self).output,
            final(self).nodes@.len() == old(self).nodes@.len(),
            forall|n: int|
                0 <= n < old(self).nodes@.len() ==> {
                    &&& (#[trigger] final(self).nodes@[n]).name == old(self).nodes@[n].name
                    &&& final(self).nodes@[n].index == old(self).nodes@[n].index
                    &&& final(self).nodes@[n].data == old(self).nodes@[n].data
                },
            forall|p: PortReference| #[trigger] final(self).valid_port(p) <==> old(self).valid_port(p),
            forall|p: PortReference|
                old(self).valid_port(p) ==> {
                    &&& (#[trigger] final(self).port_at(p)).name == old(self).port_at(p).name
                    &&& final(self).port_at(p).detail == old(self).port_at(p).detail
                },
            final(self).port_connections(from) == old(self).port_connections(from).push(c),
            final(self).port_connections(to) == old(self).port_connections(to).push(c),
            forall|p: PortReference|
                old(self).valid_port(p) && p != from && p != to ==> #[trigger] final(self).port_at(p)
                    == old(self).port_at(p),
    {
        let ghost o = *self;
        let c = self.connections.len();
        self.connections.push(Connection { from, to, index: c, data });
        self.nodes[from.node_index].outputs[from.port_index].connections.push(c);
        let ghost mid = *self;
        self.nodes[to.node_index].inputs[to.port_index].connections.push(c);
        proof {
            let s = *self;
            assert(from != to);
            assert forall|p: PortReference| #[trigger] s.valid_port(p) <==> o.valid_port(p) by {
                if p.node_index < s.nodes@.len() {
                    assert(s.ports_of(p.node_index as int, p.direction).len() == o.ports_of(
                        p.node_index as int,
                        p.direction,
                    ).len());
                }
            }
            assert forall|p: PortReference|
                o.valid_port(p) && p != from && p != to implies #[trigger] s.port_at(p) == o.port_at(p) by {
                assert(mid.port_at(p) == o.port_at(p));
            }
            assert(s.port_connections(from) == o.port_connections(from).push(c));
            assert(s.port_connections(to) == o.port_connections(to).push(c));
            assert forall|p: PortReference| o.valid_port(p) implies {
                &&& (#[trigger] s.port_at(p)).name == o.port_at(p).name
                &&& s.port_at(p).detail == o.port_at(p).detail
            } by {
                assert(mid.port_at(p).name == o.port_at(p).name);
            }
            assert forall|p: PortReference, k: int|
                s.valid_port(p) && 0 <= k < s.port_connections(p).len() implies {
                    let cc = #[trigger] s.port_connections(p)[k];
                    &&& cc < s.connections@.len()
                    &&& s.connections@[cc as int].end_at(p.direction) == p
                } by {
                if p == from || p == to {
                    if k < o.port_connections(p).len() {
                        assert(s.port_connections(p)[k] == o.port_connections(p)[k]);
                    }
                } else {
                    assert(s.port_connections(p)[k] == o.port_connections(p)[k]);
                }
            }
            assert forall|cc: int| 0 <= cc < s.connections@.len() implies {
                let conn = #[trigger] s.connections@[cc];
                &&& s.port_connections(conn.from).contains(cc as ConnectionIndex)
                &&& s.port_connections(conn.to).contains(cc as ConnectionIndex)
            } by {
                let conn = s.connections@[cc];
                if cc == c {
                    assert(s.port_connections(from).last() == c);
                    assert(s.port_connections(to).last() == c);
                } else {
                    assert(o.connections@[cc] == conn);
                    assert(o.port_connections(conn.from).contains(cc as ConnectionIndex));
                    let k = choose|k: int| 0 <= k < o.port_connections(conn.from).len() && o.port_connections(conn.from)[k] == cc;
                    assert(s.port_connections(conn.from)[k] == cc);
                    let j = choose|j: int| 0 <= j < o.port_connections(conn.to).len() && o.port_connections(conn.to)[j] == cc;
                    assert(s.port_connections(conn.to)[j] == cc);
                }
            }
        }
        c
    }

    /// The node at `index`, if there is one.
    pub fn get(&self, index: NodeIndex) -> (r: Option<&Node<DATA>>)
        ensures
            index < self.nodes@.len() ==> r == Some(&self.nodes@[index as int]),
            index >= self.nodes@.len() ==> r is None,
    {
        if index < self.nodes.len() {
            Some(&self.nodes[index])
        } else {
            None
        }
    }
}

} // verus!
