use vstd::prelude::*;

use crate::schematic::{
    Connection, ConnectionIndex, NodeIndex, NodePort, PortDirection, PortReference, Schematic,
};

verus! {

/// What a hop stands for, without the reference to its schematic.
pub enum HopModel {
    Node { index: NodeIndex },
    Port { port: PortReference },
    Ports {
        node_index: NodeIndex,
        direction: Option<PortDirection>,
        ports: Seq<PortReference>,
        cur: nat,
    },
    Connections { connections: Seq<ConnectionIndex>, cur: nat },
    Connection { connection: ConnectionIndex },
}

/// The references of all ports of node `node` in the given direction, in order.
pub open spec fn node_port_refs<DATA>(
    s: &Schematic<DATA>,
    node: NodeIndex,
    direction: PortDirection,
) -> Seq<PortReference> {
    Seq::new(
        s.ports_of(node as int, direction).len(),
        |i: int| PortReference { node_index: node, port_index: i as usize, direction },
    )
}

/// The hop that lists the ports of node `node` in the given direction, not yet iterated.
pub open spec fn node_ports_model<DATA>(
    s: &Schematic<DATA>,
    node: NodeIndex,
    direction: PortDirection,
) -> HopModel {
    let ports = node_port_refs(s, node, direction);
    HopModel::Ports {
        node_index: node,
        direction: if ports.len() > 0 { Some(direction) } else { None },
        ports,
        cur: 0,
    }
}

/// `m` stands for something that exists in schematic `s`.
pub open spec fn model_valid<DATA>(s: &Schematic<DATA>, m: HopModel) -> bool {
    match m {
        HopModel::Node { index } => index < s.nodes@.len(),
        HopModel::Port { port } => s.valid_port(port),
        HopModel::Ports { node_index, direction, ports, cur } => {
            &&& node_index < s.nodes@.len()
            &&& cur <= ports.len()
            &&& direction == (if ports.len() > 0 { Some(ports[0].direction) } else { None::<PortDirection> })
            &&& forall|i: int|
                0 <= i < ports.len() ==> {
                    &&& s.valid_port(#[trigger] ports[i])
                    &&& ports[i].node_index == node_index
                    &&& ports[i].direction == ports[0].direction
                }
        },
        HopModel::Connections { connections, cur } => {
            &&& cur <= connections.len()
            &&& forall|i: int| 0 <= i < connections.len() ==> #[trigger] connections[i] < s.connections@.len()
        },
        HopModel::Connection { connection } => connection < s.connections@.len(),
    }
}

/// A node of a schematic, as a stop of a walk.
#[derive(Debug)]
pub struct NodeHop<'graph, DATA> where DATA: Clone {
    pub schematic: &'graph Schematic<DATA>,
    pub index: NodeIndex,
}

/// One port of a schematic, as a stop of a walk.
#[derive(Debug)]
pub struct Port<'graph, DATA> where DATA: Clone {
    pub schematic: &'graph Schematic<DATA>,
    pub port: PortReference,
}

/// The ports of one node in one direction, iterated from `cur_index` on.
/// `direction` is the direction of the first port, or `None` when there is none.
#[derive(Debug)]
pub struct Ports<'graph, DATA> where DATA: Clone {
    pub schematic: &'graph Schematic<DATA>,
    pub node_index: NodeIndex,
    pub direction: Option<PortDirection>,
    pub ports: Vec<PortReference>,
    pub cur_index: usize,
}

/// A list of connections, iterated from `cur_index` on.
#[derive(Debug)]
pub struct Connections<'graph, DATA> where DATA: Clone {
    pub schematic: &'graph Schematic<DATA>,
    pub connections: Vec<ConnectionIndex>,
    pub cur_index: usize,
}

/// One connection of a schematic, as a stop of a walk.
#[derive(Debug)]
pub struct ConnectionRef<'graph, DATA> where DATA: Clone {
    pub schematic: &'graph Schematic<DATA>,
    pub index: ConnectionIndex,
}

/// A stop of a walk through a schematic.
#[derive(Debug)]
pub enum SchematicHop<'graph, DATA> where DATA: Clone {
    Node(NodeHop<'graph, DATA>),
    Port(Port<'graph, DATA>),
    Ports(Ports<'graph, DATA>),
    Connections(Connections<'graph, DATA>),
    Connection(ConnectionRef<'graph, DATA>),
}

impl<'graph, DATA> View for SchematicHop<'graph, DATA> where DATA: Clone {
    type V = HopModel;

    open spec fn view(&self) -> HopModel {
        match self {
            SchematicHop::Node(v) => HopModel::Node { index: v.index },
            SchematicHop::Port(v) => HopModel::Port { port: v.port },
            SchematicHop::Ports(v) => v.model(),
            SchematicHop::Connections(v) => v.model(),
            SchematicHop::Connection(v) => HopModel::Connection { connection: v.index },
        }
    }
}

impl<'graph, DATA> SchematicHop<'graph, DATA> where DATA: Clone {
    /// The schematic that the hop belongs to.
    pub open spec fn graph(&self) -> &'graph Schematic<DATA> {
        match self {
            SchematicHop::Node(v) => v.schematic,
            SchematicHop::Port(v) => v.schematic,
            SchematicHop::Ports(v) => v.schematic,
            SchematicHop::Connections(v) => v.schematic,
            SchematicHop::Connection(v) => v.schematic,
        }
    }

    /// The hop belongs to `s` and stands for something that exists there.
    pub open spec fn lies_in(&self, s: &'graph Schematic<DATA>) -> bool {
        self.graph() == s && model_valid(s, self@)
    }
}

impl<'graph, DATA> NodeHop<'graph, DATA> where DATA: Clone {
    pub fn new(schematic: &'graph Schematic<DATA>, index: NodeIndex) -> (r: Self)
        ensures
            r.schematic == schematic,
            r.index == index,
    {
        NodeHop { schematic, index }
    }

    /// The name of the node.
    pub fn name(&self) -> (r: &str)
        requires
            self.index < self.schematic.nodes@.len(),
        ensures
            r@ == self.schematic.nodes@[self.index as int].name@,
    {
        self.schematic.nodes[self.index].name()
    }

    /// The ports of the node in the given direction, ready to be iterated.
    fn into_ports(self, direction: PortDirection) -> (r: Ports<'graph, DATA>)
        requires
            self.index < self.schematic.nodes@.len(),
        ensures
            r.schematic == self.schematic,
            r.model() == node_ports_model(self.schematic, self.index, direction),
    {
        let node = &self.schematic.nodes[self.index];
        let count = match direction {
            PortDirection::In => node.inputs.len(),
            PortDirection::Out => node.outputs.len(),
        };
        let ghost all = node_port_refs(self.schematic, self.index, direction);
        let mut ports: Vec<PortReference> = Vec::new();
        let mut i: usize = 0;
        while i < count
            invariant
                count == all.len(),
                i <= count,
                ports@ == all.take(i as int),
                all == node_port_refs(self.schematic, self.index, direction),
            decreases count - i,
        {
            ports.push(PortReference { node_index: self.index, port_index: i, direction });
            i = i + 1;
            assert(ports@ =~= all.take(i as int));
        }
        assert(ports@ =~= all);
        Ports::new(self.schematic, self.index, ports)
    }

    /// The input ports of the node, ready to be iterated.
    pub fn into_inputs(self) -> (r: Ports<'graph, DATA>)
        requires
            self.index < self.schematic.nodes@.len(),
        ensures
            r.schematic == self.schematic,
            r.model() == node_ports_model(self.schematic, self.index, PortDirection::In),
    {
        self.into_ports(PortDirection::In)
    }

    /// The output ports of the node, ready to be iterated.
    pub fn into_outputs(self) -> (r: Ports<'graph, DATA>)
        requires
            self.index < self.schematic.nodes@.len(),
        ensures
            r.schematic == self.schematic,
            r.model() == node_ports_model(self.schematic, self.index, PortDirection::Out),
    {
        self.into_ports(PortDirection::Out)
    }
}

impl<'graph, DATA> Port<'graph, DATA> where DATA: Clone {
    pub fn new(schematic: &'graph Schematic<DATA>, port: PortReference) -> (r: Self)
        ensures
            r.schematic == schematic,
            r.port == port,
    {
        Port { schematic, port }
    }

    /// The name of the port.
    pub fn name(&self) -> (r: &str)
        requires
            self.schematic.valid_port(self.port),
        ensures
            r@ == self.schematic.port_at(self.port).name@,
    {
        get_port_name(self.schematic, &self.port)
    }

    /// The connections recorded on the port, ready to be iterated.
    pub fn connections(&self) -> (r: Connections<'graph, DATA>)
        requires
            self.schematic.valid_port(self.port),
        ensures
            r.schematic == self.schematic,
            r.model() == (HopModel::Connections {
                connections: self.schematic.port_connections(self.port),
                cur: 0,
            }),
    {
        get_port_connections(self.schematic, &self.port)
    }
}

impl<'graph, DATA> Ports<'graph, DATA> where DATA: Clone {
    pub open spec fn model(&self) -> HopModel {
        HopModel::Ports {
            node_index: self.node_index,
            direction: self.direction,
            ports: self.ports@,
            cur: self.cur_index as nat,
        }
    }

    /// The ports `ports` of node `node_index`; their direction is that of the first one.
    pub fn new(schematic: &'graph Schematic<DATA>, node_index: NodeIndex, ports: Vec<PortReference>) -> (r: Self)
        ensures
            r.schematic == schematic,
            r.model() == (HopModel::Ports {
                node_index,
                direction: if ports@.len() > 0 { Some(ports@[0].direction) } else { None::<PortDirection> },
                ports: ports@,
                cur: 0,
            }),
    {
        let direction = if ports.len() > 0 {
            Some(ports[0].direction)
        } else {
            None
        };
        Ports { schematic, node_index, direction, ports, cur_index: 0 }
    }

    pub fn len(&self) -> (r: usize)
        ensures
            r == self.ports@.len(),
    {
        self.ports.len()
    }

    pub fn is_empty(&self) -> (r: bool)
        ensures
            r == (self.ports@.len() == 0),
    {
        self.ports.len() == 0
    }

    /// The port at the cursor, if any, moving the cursor past it.
    pub fn next(&mut self) -> (r: Option<Port<'graph, DATA>>)
        ensures
            final(self).schematic == old(self).schematic,
            old(self).cur_index < old(self).ports@.len() ==> {
                &&& r == Some(Port { schematic: old(self).schematic, port: old(self).ports@[old(self).cur_index as int] })
                &&& final(self).model() == (HopModel::Ports {
                    node_index: old(self).node_index,
                    direction: old(self).direction,
                    ports: old(self).ports@,
                    cur: (old(self).cur_index + 1) as nat,
                })
            },
            old(self).cur_index >= old(self).ports@.len() ==> r is None && final(self).model() == old(self).model(),
    {
        if self.cur_index < self.ports.len() {
            let port = Port::new(self.schematic, self.ports[self.cur_index]);
            self.cur_index = self.cur_index + 1;
            Some(port)
        } else {
            None
        }
    }
}

impl<'graph, DATA> Connections<'graph, DATA> where DATA: Clone {
    pub open spec fn model(&self) -> HopModel {
        HopModel::Connections { connections: self.connections@, cur: self.cur_index as nat }
    }

    pub fn new(schematic: &'graph Schematic<DATA>, connections: Vec<ConnectionIndex>) -> (r: Self)
        ensures
            r.schematic == schematic,
            r.model() == (HopModel::Connections { connections: connections@, cur: 0 }),
    {
        Connections { schematic, connections, cur_index: 0 }
    }

    pub fn len(&self) -> (r: usize)
        ensures
            r == self.connections@.len(),
    {
        self.connections.len()
    }

    pub fn is_empty(&self) -> (r: bool)
        ensures
            r == (self.connections@.len() == 0),
    {
        self.connections.len() == 0
    }

    /// The connection at the cursor, if any, moving the cursor past it.
    pub fn next(&mut self) -> (r: Option<ConnectionRef<'graph, DATA>>)
        ensures
            final(self).schematic == old(self).schematic,
            old(self).cur_index < old(self).connections@.len() ==> {
                &&& r == Some(ConnectionRef {
                    schematic: old(self).schematic,
                    index: old(self).connections@[old(self).cur_index as int],
                })
                &&& final(self).model() == (HopModel::Connections {
                    connections: old(self).connections@,
                    cur: (old(self).cur_index + 1) as nat,
                })
            },
            old(self).cur_index >= old(self).connections@.len() ==> r is None && final(self).model() == old(self).model(),
    {
        if self.cur_index < self.connections.len() {
            let c = ConnectionRef::new(self.schematic, self.connections[self.cur_index]);
            self.cur_index = self.cur_index + 1;
            Some(c)
        } else {
            None
        }
    }
}

impl<'graph, DATA> ConnectionRef<'graph, DATA> where DATA: Clone {
    pub fn new(schematic: &'graph Schematic<DATA>, index: ConnectionIndex) -> (r: Self)
        ensures
            r.schematic == schematic,
            r.index == index,
    {
        ConnectionRef { schematic, index }
    }

    /// The connection itself.
    pub fn connection(&self) -> (r: &'graph Connection<DATA>)
        requires
            self.index < self.schematic.connections@.len(),
        ensures
            *r == self.schematic.connections@[self.index as int],
    {
        get_connection(self.schematic, self.index)
    }
}

/// The port that `port` refers to.
pub fn get_ports_node<'graph, DATA>(schematic: &'graph Schematic<DATA>, port: &PortReference) -> (r: &'graph NodePort)
    where DATA: Clone,
    requires
        schematic.valid_port(*port),
    ensures
        *r == schematic.port_at(*port),
{
    match port.direction {
        PortDirection::In => &schematic.nodes[port.node_index].inputs[port.port_index],
        PortDirection::Out => &schematic.nodes[port.node_index].outputs[port.port_index],
    }
}

/// The name of the port that `port` refers to.
pub fn get_port_name<'graph, DATA>(schematic: &'graph Schematic<DATA>, port: &PortReference) -> (r: &'graph str)
    where DATA: Clone,
    requires
        schematic.valid_port(*port),
    ensures
        r@ == schematic.port_at(*port).name@,
{
    match port.direction {
        PortDirection::In => schematic.nodes[port.node_index].inputs[port.port_index].name(),
        PortDirection::Out => schematic.nodes[port.node_index].outputs[port.port_index].name(),
    }
}

/// The connections recorded on the port that `port` refers to, ready to be iterated.
pub fn get_port_connections<'graph, DATA>(schematic: &'graph Schematic<DATA>, port: &PortReference) -> (r: Connections<'graph, DATA>)
    where DATA: Clone,
    requires
        schematic.valid_port(*port),
    ensures
        r.schematic == schematic,
        r.model() == (HopModel::Connections { connections: schematic.port_connections(*port), cur: 0 }),
{
    let direction = port.direction;
    let indices = match schematic.get(port.node_index) {
        Some(node) => match direction {
            PortDirection::In => node.input_connections(port.port_index),
            PortDirection::Out => node.output_connections(port.port_index),
        },
        None => None,
    };
    match indices {
        Some(indices) => Connections::new(schematic, copy_vec(indices)),
        None => {
            proof {
                assert(false);
            }
            Connections::new(schematic, Vec::new())
        },
    }
}

/// The connection at position `index`.
pub fn get_connection<DATA>(schematic: &Schematic<DATA>, index: ConnectionIndex) -> (r: &Connection<DATA>)
    requires
        index < schematic.connections@.len(),
    ensures
        *r == schematic.connections@[index as int],
{
    &schematic.connections[index]
}

/// A copy of a list of plain values.
fn copy_vec<T: Copy>(v: &Vec<T>) -> (r: Vec<T>)
    ensures
        r@ == v@,
{
    let mut r: Vec<T> = Vec::new();
    let mut i: usize = 0;
    while i < v.len()
        invariant
            i <= v@.len(),
            r@ == v@.take(i as int),
        decreases v@.len() - i,
    {
        r.push(v[i]);
        i = i + 1;
        assert(r@ =~= v@.take(i as int));
    }
    assert(r@ =~= v@);
    r
}

impl<'graph, DATA> Clone for SchematicHop<'graph, DATA> where DATA: Clone {
    fn clone(&self) -> (r: Self)
        ensures
            r@ == self@,
            r.graph() == self.graph(),
    {
        match self {
            SchematicHop::Node(v) => SchematicHop::Node(NodeHop { schematic: v.schematic, index: v.index }),
            SchematicHop::Port(v) => SchematicHop::Port(Port { schematic: v.schematic, port: v.port }),
            SchematicHop::Ports(v) => SchematicHop::Ports(Ports {
                schematic: v.schematic,
                node_index: v.node_index,
                direction: v.direction,
                ports: copy_vec(&v.ports),
                cur_index: v.cur_index,
            }),
            SchematicHop::Connections(v) => SchematicHop::Connections(Connections {
                schematic: v.schematic,
                connections: copy_vec(&v.connections),
                cur_index: v.cur_index,
            }),
            SchematicHop::Connection(v) => SchematicHop::Connection(ConnectionRef { schematic: v.schematic, index: v.index }),
        }
    }
}

impl<'graph, DATA> From<NodeHop<'graph, DATA>> for SchematicHop<'graph, DATA> where DATA: Clone {
    fn from(node: NodeHop<'graph, DATA>) -> (r: Self) {
        SchematicHop::Node(node)
    }
}

impl<'graph, DATA> vstd::std_specs::convert::FromSpecImpl<NodeHop<'graph, DATA>> for SchematicHop<'graph, DATA> where DATA: Clone {
    open spec fn obeys_from_spec() -> bool {
        true
    }

    open spec fn from_spec(v: NodeHop<'graph, DATA>) -> Self {
        SchematicHop::Node(v)
    }
}

/// The model of an optional hop.
pub open spec fn hop_model<'graph, DATA: Clone>(hop: Option<SchematicHop<'graph, DATA>>) -> Option<HopModel> {
    match hop {
        Some(h) => Some(h@),
        None => None,
    }
}

} // verus!
