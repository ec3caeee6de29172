use vstd::prelude::*;

use crate::hops::{
    get_port_connections, hop_model, node_port_refs, node_ports_model, HopModel, NodeHop, Port,
    SchematicHop,
};
use crate::schematic::{PortDirection, PortReference, Schematic};

verus! {

/// Which way a walk follows the connections: `Down` goes from outputs to the
/// inputs they feed, `Up` goes from inputs back to the outputs that feed them.
#[derive(Debug, Clone, Copy, PartialEq, Eq, Structural)]
pub enum WalkDirection {
    Up,
    Down,
}

/// The direction of the ports through which a walk enters a node:
/// inputs when walking down, outputs when walking up.
pub open spec fn entering(direction: WalkDirection) -> PortDirection {
    match direction {
        WalkDirection::Down => PortDirection::In,
        WalkDirection::Up => PortDirection::Out,
    }
}

/// The direction of the ports through which a walk leaves a node:
/// outputs when walking down, inputs when walking up.
pub open spec fn leaving(direction: WalkDirection) -> PortDirection {
    match direction {
        WalkDirection::Down => PortDirection::Out,
        WalkDirection::Up => PortDirection::In,
    }
}

/// One step of a walk from hop `hop`: the hop that follows it, if any, and
/// the rest of an iteration that must be resumed later, if any.
///
/// A node leads to the ports through which the walk leaves it; a port through
/// which the walk enters a node leads to that node; any other port leads to
/// its connections; a list of ports leads to its node when the walk enters the
/// node through them, and otherwise to its next port; a list of connections
/// leads to its next connection; a connection leads to the port at its far
/// end (`to` when walking down, `from` when walking up).  Empty lists of ports
/// or connections lead nowhere.
pub open spec fn walk_spec<DATA>(
    s: &Schematic<DATA>,
    hop: Option<HopModel>,
    direction: WalkDirection,
) -> (Option<HopModel>, Option<HopModel>) {
    match hop {
        None => (None, None),
        Some(HopModel::Node { index }) => {
            let ports = node_port_refs(s, index, leaving(direction));
            if ports.len() == 0 {
                (None, None)
            } else {
                (Some(node_ports_model(s, index, leaving(direction))), None)
            }
        },
        Some(HopModel::Port { port }) => {
            if port.direction == entering(direction) {
                (Some(HopModel::Node { index: port.node_index }), None)
            } else {
                let connections = s.port_connections(port);
                if connections.len() == 0 {
                    (None, None)
                } else {
                    (Some(HopModel::Connections { connections, cur: 0 }), None)
                }
            }
        },
        Some(HopModel::Ports { node_index, direction: port_direction, ports, cur }) => {
            match port_direction {
                None => (None, None),
                Some(d) => {
                    if d == entering(direction) {
                        (Some(HopModel::Node { index: node_index }), None)
                    } else if cur < ports.len() {
                        (
                            Some(HopModel::Port { port: ports[cur as int] }),
                            Some(HopModel::Ports { node_index, direction: port_direction, ports, cur: cur + 1 }),
                        )
                    } else {
                        (None, None)
                    }
                },
            }
        },
        Some(HopModel::Connections { connections, cur }) => {
            if cur < connections.len() {
                (
                    Some(HopModel::Connection { connection: connections[cur as int] }),
                    Some(HopModel::Connections { connections, cur: cur + 1 }),
                )
            } else {
                (None, None)
            }
        },
        Some(HopModel::Connection { connection }) => {
            let c = s.connections@[connection as int];
            match direction {
                WalkDirection::Up => (Some(HopModel::Port { port: c.from }), None),
                WalkDirection::Down => (Some(HopModel::Port { port: c.to }), None),
            }
        },
    }
}

/// One step of a walker whose last hop is `last` and whose pending
/// iterations are `queue` (the most recent last): the hop it yields and the
/// pending iterations afterwards.  The rest of an iteration is queued; when
/// the last hop leads nowhere, the most recently queued iteration is resumed.
pub open spec fn step_spec<DATA>(
    s: &Schematic<DATA>,
    last: Option<HopModel>,
    queue: Seq<HopModel>,
    direction: WalkDirection,
) -> (Option<HopModel>, Seq<HopModel>) {
    let (next, branch) = walk_spec(s, last, direction);
    let queue1 = match branch {
        Some(b) => queue.push(b),
        None => queue,
    };
    match next {
        Some(n) => (Some(n), queue1),
        None => {
            if queue1.len() > 0 {
                (Some(queue1.last()), queue1.drop_last())
            } else {
                (None, queue1)
            }
        },
    }
}

/// One step of a walk through `schematic` from `hop` (see [`walk_spec`]):
/// the hop that follows, and the rest of an iteration to resume later.
pub fn walk<'graph, DATA>(
    schematic: &'graph Schematic<DATA>,
    hop: Option<SchematicHop<'graph, DATA>>,
    direction: WalkDirection,
) -> (r: (Option<SchematicHop<'graph, DATA>>, Option<SchematicHop<'graph, DATA>>))
    where DATA: Clone,
    requires
        hop matches Some(h) ==> schematic.wf() && h.lies_in(schematic),
    ensures
        (hop_model(r.0), hop_model(r.1)) == walk_spec(schematic, hop_model(hop), direction),
        r.0 matches Some(h) ==> h.lies_in(schematic),
        r.1 matches Some(h) ==> h.lies_in(schematic),
{
    match hop {
        Some(hop) => match hop {
            SchematicHop::Node(v) => {
                let ports = match direction {
                    WalkDirection::Up => v.into_inputs(),
                    WalkDirection::Down => v.into_outputs(),
                };
                if ports.is_empty() {
                    (None, None)
                } else {
                    (Some(SchematicHop::Ports(ports)), None)
                }
            },
            SchematicHop::Port(v) => match direction {
                WalkDirection::Down => match v.port.direction {
                    PortDirection::In => {
                        let node = NodeHop::new(schematic, v.port.node_index);
                        (Some(SchematicHop::from(node)), None)
                    },
                    PortDirection::Out => {
                        let connections = get_port_connections(schematic, &v.port);
                        if connections.is_empty() {
                            (None, None)
                        } else {
                            (Some(SchematicHop::Connections(connections)), None)
                        }
                    },
                },
                WalkDirection::Up => match v.port.direction {
                    PortDirection::In => {
                        let connections = get_port_connections(schematic, &v.port);
                        if connections.is_empty() {
                            (None, None)
                        } else {
                            (Some(SchematicHop::Connections(connections)), None)
                        }
                    },
                    PortDirection::Out => {
                        let node = NodeHop::new(schematic, v.port.node_index);
                        (Some(SchematicHop::from(node)), None)
                    },
                },
            },
            SchematicHop::Ports(mut v) => {
                if v.direction.is_none() {
                    return (None, None);
                }
                let port_direction = v.direction.unwrap();
                match direction {
                    WalkDirection::Up => match port_direction {
                        PortDirection::In => {
                            let result = v.next();
                            match result {
                                Some(port) => (Some(SchematicHop::Port(port)), Some(SchematicHop::Ports(v))),
                                None => (None, None),
                            }
                        },
                        PortDirection::Out => {
                            let node = NodeHop::new(schematic, v.node_index);
                            (Some(SchematicHop::from(node)), None)
                        },
                    },
                    WalkDirection::Down => match port_direction {
                        PortDirection::In => {
                            let node = NodeHop::new(schematic, v.node_index);
                            (Some(SchematicHop::from(node)), None)
                        },
                        PortDirection::Out => {
                            let result = v.next();
                            match result {
                                Some(port) => (Some(SchematicHop::Port(port)), Some(SchematicHop::Ports(v))),
                                None => (None, None),
                            }
                        },
                    },
                }
            },
            SchematicHop::Connection(v) => {
                let connection = &schematic.connections[v.index];
                match direction {
                    WalkDirection::Up => {
                        let port = Port::new(schematic, connection.from);
                        (Some(SchematicHop::Port(port)), None)
                    },
                    WalkDirection::Down => {
                        let port = Port::new(schematic, connection.to);
                        (Some(SchematicHop::Port(port)), None)
                    },
                }
            },
            SchematicHop::Connections(mut v) => {
                let result = v.next();
                match result {
                    Some(c) => (Some(SchematicHop::Connection(c)), Some(SchematicHop::Connections(v))),
                    None => (None, None),
                }
            },
        },
        None => (None, None),
    }
}

/// Walks a schematic hop by hop, depth first: it follows each hop to the
/// next one and, where a hop leads nowhere, resumes the most recently
/// interrupted iteration over ports or connections.
#[derive(Debug)]
pub struct SchematicWalker<'graph, DATA> where DATA: Clone {
    schematic: &'graph Schematic<DATA>,
    last_hop: Option<SchematicHop<'graph, DATA>>,
    hop_queue: Vec<SchematicHop<'graph, DATA>>,
    direction: WalkDirection,
}

impl<'graph, DATA> SchematicWalker<'graph, DATA> where DATA: Clone {
    /// The schematic being walked.
    pub closed spec fn graph(&self) -> &'graph Schematic<DATA> {
        self.schematic
    }

    /// The hop returned last, if any.
    pub closed spec fn last(&self) -> Option<HopModel> {
        hop_model(self.last_hop)
    }

    /// The pending hops, the one to resume first last.
    pub closed spec fn queue(&self) -> Seq<HopModel> {
        self.hop_queue@.map_values(|h: SchematicHop<'graph, DATA>| h@)
    }

    pub closed spec fn walk_direction(&self) -> WalkDirection {
        self.direction
    }

    /// The schematic is consistent and every hop the walker holds lies in it.
    pub closed spec fn wf(&self) -> bool {
        &&& self.schematic.wf()
        &&& (self.last_hop matches Some(h) ==> h.lies_in(self.schematic))
        &&& forall|i: int| 0 <= i < self.hop_queue@.len() ==> (#[trigger] self.hop_queue@[i]).lies_in(self.schematic)
    }

    /// A walker that goes down from the input node of `schematic`, starting
    /// with the list of that node's input ports.
    pub fn new_from_input(schematic: &'graph Schematic<DATA>) -> (w: Self)
        requires
            schematic.wf(),
        ensures
            w.wf(),
            w.graph() == schematic,
            w.last() is None,
            w.queue() == seq![node_ports_model(schematic, schematic.input, PortDirection::In)],
            w.walk_direction() == WalkDirection::Down,
    {
        let inputs = NodeHop::new(schematic, schematic.input).into_inputs();
        let mut hop_queue = Vec::new();
        hop_queue.push(SchematicHop::Ports(inputs));
        let w = SchematicWalker { schematic, last_hop: None, hop_queue, direction: WalkDirection::Down };
        assert(w.queue() =~= seq![node_ports_model(schematic, schematic.input, PortDirection::In)]);
        w
    }

    /// A walker that goes up from the output node of `schematic`, starting
    /// with that node.
    pub fn new_from_output(schematic: &'graph Schematic<DATA>) -> (w: Self)
        requires
            schematic.wf(),
        ensures
            w.wf(),
            w.graph() == schematic,
            w.last() is None,
            w.queue() == seq![HopModel::Node { index: schematic.output }],
            w.walk_direction() == WalkDirection::Up,
    {
        let mut hop_queue = Vec::new();
        hop_queue.push(SchematicHop::Node(NodeHop::new(schematic, schematic.output)));
        let w = SchematicWalker { schematic, last_hop: None, hop_queue, direction: WalkDirection::Up };
        assert(w.queue() =~= seq![HopModel::Node { index: schematic.output }]);
        w
    }

    /// A walker that goes in `direction` from port `port`, starting with that port.
    pub fn from_port(schematic: &'graph Schematic<DATA>, port: PortReference, direction: WalkDirection) -> (w: Self)
        requires
            schematic.wf(),
            schematic.valid_port(port),
        ensures
            w.wf(),
            w.graph() == schematic,
            w.last() is None,
            w.queue() == seq![HopModel::Port { port }],
            w.walk_direction() == direction,
    {
        let port = Port::new(schematic, port);
        let mut hop_queue = Vec::new();
        hop_queue.push(SchematicHop::Port(port));
        let w = SchematicWalker { schematic, last_hop: None, hop_queue, direction };
        assert(w.queue() =~= seq![HopModel::Port { port: port.port }]);
        w
    }

    /// The next hop of the walk (see [`step_spec`]), or `None` once the walk is over.
    pub fn next(&mut self) -> (r: Option<SchematicHop<'graph, DATA>>)
        requires
            old(self).wf(),
        ensures
            final(self).wf(),
            final(self).graph() == old(self).graph(),
            final(self).walk_direction() == old(self).walk_direction(),
            (hop_model(r), final(self).queue()) == step_spec(
                old(self).graph(),
                old(self).last(),
                old(self).queue(),
                old(self).walk_direction(),
            ),
            final(self).last() == hop_model(r),
            r matches Some(h) ==> h.lies_in(old(self).graph()),
    {
        let ghost q0 = self.queue();
        let last_hop = self.last_hop.take();
        let (mut next_hop, branch) = walk(self.schematic, last_hop, self.direction);
        if let Some(branch) = branch {
            self.hop_queue.push(branch);
        }
        let ghost q1 = self.queue();
        assert(q1 =~= (match walk_spec(self.schematic, hop_model(last_hop), self.direction).1 {
            Some(b) => q0.push(b),
            None => q0,
        }));
        if next_hop.is_none() {
            next_hop = self.hop_queue.pop();
            proof {
                if q1.len() > 0 {
                    assert(self.queue() =~= q1.drop_last());
                }
            }
        }
        self.last_hop = match &next_hop {
            Some(h) => Some(h.clone()),
            None => None,
        };
        next_hop
    }
}

} // verus!
