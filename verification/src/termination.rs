use vstd::prelude::*;

use crate::hops::{model_valid, node_port_refs, node_ports_model, HopModel};
use vstd::set_lib::full_set_properties;
use crate::schematic::{ConnectionIndex, NodeIndex, PortReference, Schematic};
use crate::walker::{entering, leaving, step_spec, walk_spec, WalkDirection};

verus! {

/// The state of a walk after `k` steps from `last` and `queue`: the hop
/// yielded by the `k`-th step (for `k >= 1`) and the pending hops.
pub open spec fn walk_run<DATA>(
    s: &Schematic<DATA>,
    last: Option<HopModel>,
    queue: Seq<HopModel>,
    direction: WalkDirection,
    k: nat,
) -> (Option<HopModel>, Seq<HopModel>)
    decreases k,
{
    if k == 0 {
        (last, queue)
    } else {
        let prev = walk_run(s, last, queue, direction, (k - 1) as nat);
        step_spec(s, prev.0, prev.1, direction)
    }
}

/// Every hop of the state stands for something that exists in `s`.
pub open spec fn state_valid<DATA>(s: &Schematic<DATA>, last: Option<HopModel>, queue: Seq<HopModel>) -> bool {
    &&& (last matches Some(h) ==> model_valid(s, h))
    &&& forall|j: int| 0 <= j < queue.len() ==> model_valid(s, #[trigger] queue[j])
}

/// The node a walk in `direction` leaves through connection `c`.
pub open spec fn behind<DATA>(s: &Schematic<DATA>, c: ConnectionIndex, direction: WalkDirection) -> NodeIndex {
    match direction {
        WalkDirection::Down => s.connections@[c as int].from.node_index,
        WalkDirection::Up => s.connections@[c as int].to.node_index,
    }
}

/// The node a walk in `direction` reaches through connection `c`.
pub open spec fn ahead<DATA>(s: &Schematic<DATA>, c: ConnectionIndex, direction: WalkDirection) -> NodeIndex {
    match direction {
        WalkDirection::Down => s.connections@[c as int].to.node_index,
        WalkDirection::Up => s.connections@[c as int].from.node_index,
    }
}

/// The port of connection `c` through which a walk in `direction` leaves a node.
pub open spec fn behind_port<DATA>(s: &Schematic<DATA>, c: ConnectionIndex, direction: WalkDirection) -> PortReference {
    match direction {
        WalkDirection::Down => s.connections@[c as int].from,
        WalkDirection::Up => s.connections@[c as int].to,
    }
}

/// The port of connection `c` through which a walk in `direction` enters a node.
pub open spec fn ahead_port<DATA>(s: &Schematic<DATA>, c: ConnectionIndex, direction: WalkDirection) -> PortReference {
    match direction {
        WalkDirection::Down => s.connections@[c as int].to,
        WalkDirection::Up => s.connections@[c as int].from,
    }
}

/// Walking the hops that follow `h` never leaves `s`.
pub proof fn lemma_walk_valid<DATA>(s: &Schematic<DATA>, h: HopModel, direction: WalkDirection)
    requires
        s.wf(),
        model_valid(s, h),
    ensures
        walk_spec(s, Some(h), direction).0 matches Some(n) ==> model_valid(s, n),
        walk_spec(s, Some(h), direction).1 matches Some(b) ==> model_valid(s, b),
        walk_spec(s, Some(h), direction).0 is None ==> walk_spec(s, Some(h), direction).1 is None,
{
    match h {
        HopModel::Node { index } => {
            let d = leaving(direction);
            let refs = node_port_refs(s, index, d);
            assert forall|i: int| 0 <= i < refs.len() implies {
                &&& s.valid_port(#[trigger] refs[i])
                &&& refs[i].node_index == index
                &&& refs[i].direction == refs[0].direction
            } by {}
        },
        HopModel::Port { port } => {
            if port.direction != entering(direction) {
                let cs = s.port_connections(port);
                assert forall|i: int| 0 <= i < cs.len() implies #[trigger] cs[i] < s.connections@.len() by {
                    assert(s.port_connections(port)[i] < s.connections@.len());
                }
            }
        },
        HopModel::Connection { connection } => {
            let conn = s.connections@[connection as int];
            assert(s.valid_port(conn.from) && s.valid_port(conn.to));
        },
        _ => {},
    }
}

/// The pending hops stay valid across a step.
pub proof fn lemma_step_valid<DATA>(
    s: &Schematic<DATA>,
    last: Option<HopModel>,
    queue: Seq<HopModel>,
    direction: WalkDirection,
)
    requires
        s.wf(),
        state_valid(s, last, queue),
    ensures
        state_valid(s, step_spec(s, last, queue, direction).0, step_spec(s, last, queue, direction).1),
{
    if let Some(h) = last {
        lemma_walk_valid(s, h, direction);
    }
    let (next, branch) = walk_spec(s, last, direction);
    let queue1 = match branch {
        Some(b) => queue.push(b),
        None => queue,
    };
    assert forall|j: int| 0 <= j < queue1.len() implies model_valid(s, #[trigger] queue1[j]) by {
        if j < queue.len() {
            assert(queue1[j] == queue[j]);
        }
    }
    if next is None && queue1.len() > 0 {
        assert(model_valid(s, queue1[queue1.len() - 1]));
        let q2 = queue1.drop_last();
        assert forall|j: int| 0 <= j < q2.len() implies model_valid(s, #[trigger] q2[j]) by {
            assert(q2[j] == queue1[j]);
        }
    }
}

/// A connection leads a walk in `direction` from node `a` to node `b`.
pub open spec fn step_edge<DATA>(s: &Schematic<DATA>, direction: WalkDirection, a: NodeIndex, b: NodeIndex) -> bool {
    exists|c: ConnectionIndex|
        #![trigger behind(s, c, direction), ahead(s, c, direction)]
        c < s.connections@.len() && behind(s, c, direction) == a && ahead(s, c, direction) == b
}

/// `p` is a path of nodes, each joined to the next by a connection in `direction`.
pub open spec fn is_path<DATA>(s: &Schematic<DATA>, direction: WalkDirection, p: Seq<NodeIndex>) -> bool {
    &&& p.len() >= 1
    &&& forall|i: int| #![trigger p[i]] 0 <= i < p.len() - 1 ==> step_edge(s, direction, p[i], p[i + 1])
}

/// From node `x`, following connections in `direction` can reach a cycle:
/// some path from `x` comes back to one of its own nodes.
pub open spec fn reaches_cycle<DATA>(s: &Schematic<DATA>, direction: WalkDirection, x: NodeIndex) -> bool {
    exists|p: Seq<NodeIndex>, i: int|
        #![trigger is_path(s, direction, p), p[i]]
        is_path(s, direction, p) && p[0] == x && 0 <= i < p.len() - 1 && p[i] == p.last()
}

/// A node that reaches a cycle has a successor that reaches a cycle.
pub proof fn lemma_cycle_successor<DATA>(s: &Schematic<DATA>, direction: WalkDirection, x: NodeIndex) -> (r: (
    ConnectionIndex,
    NodeIndex,
))
    requires
        reaches_cycle(s, direction, x),
    ensures
        r.0 < s.connections@.len(),
        behind(s, r.0, direction) == x,
        ahead(s, r.0, direction) == r.1,
        reaches_cycle(s, direction, r.1),
{
    let (p, i) = choose|p: Seq<NodeIndex>, i: int|
        #![trigger is_path(s, direction, p), p[i]]
        is_path(s, direction, p) && p[0] == x && 0 <= i < p.len() - 1 && p[i] == p.last();
    assert(p[0] == x);
    assert(step_edge(s, direction, p[0], p[1]));
    let c = choose|c: ConnectionIndex|
        #![trigger behind(s, c, direction), ahead(s, c, direction)]
        c < s.connections@.len() && behind(s, c, direction) == p[0] && ahead(s, c, direction) == p[1];
    let y = p[1];
    if i >= 1 {
        let q = p.drop_first();
        assert forall|j: int| #![trigger q[j]] 0 <= j < q.len() - 1 implies step_edge(s, direction, q[j], q[j + 1]) by {
            assert(p[j + 1] == q[j]);
            assert(step_edge(s, direction, p[j + 1], p[j + 2]));
        }
        assert(is_path(s, direction, q));
        assert(q[i - 1] == q.last());
        assert(is_path(s, direction, q) && q[0] == y && 0 <= i - 1 < q.len() - 1 && q[i - 1] == q.last());
    } else {
        let q = p.drop_first().push(p[1]);
        assert forall|j: int| #![trigger q[j]] 0 <= j < q.len() - 1 implies step_edge(s, direction, q[j], q[j + 1]) by {
            if j < q.len() - 2 {
                assert(q[j] == p[j + 1]);
                assert(q[j + 1] == p[j + 2]);
                assert(step_edge(s, direction, p[j + 1], p[j + 2]));
            } else {
                assert(q[j] == p[0]);
                assert(q[j + 1] == p[1]);
            }
        }
        assert(is_path(s, direction, q));
        assert(is_path(s, direction, q) && q[0] == y && 0 <= 0int < q.len() - 1 && q[0] == q.last());
    }
    (c, y)
}

/// Node `x` is among those that a walk in `direction` will go on to from port `p`:
/// the port's own node when the walk enters it there, and otherwise the nodes
/// at the far end of the port's connections.
pub open spec fn port_pends<DATA>(s: &Schematic<DATA>, direction: WalkDirection, p: PortReference, x: NodeIndex) -> bool {
    if p.direction == entering(direction) {
        x == p.node_index
    } else {
        exists|k: int|
            #![trigger s.port_connections(p)[k]]
            0 <= k < s.port_connections(p).len() && ahead(s, s.port_connections(p)[k], direction) == x
    }
}

/// Node `x` is among those that a walk in `direction` will go on to from the
/// ports of `ports` from position `cur` on.
pub open spec fn ports_pend<DATA>(
    s: &Schematic<DATA>,
    direction: WalkDirection,
    ports: Seq<PortReference>,
    cur: int,
    x: NodeIndex,
) -> bool {
    exists|i: int| #![trigger ports[i]] cur <= i < ports.len() && port_pends(s, direction, ports[i], x)
}

/// Node `x` is at the far end of one of the connections of `connections`
/// from position `cur` on.
pub open spec fn connections_pend<DATA>(
    s: &Schematic<DATA>,
    direction: WalkDirection,
    connections: Seq<ConnectionIndex>,
    cur: int,
    x: NodeIndex,
) -> bool {
    exists|k: int| #![trigger connections[k]] cur <= k < connections.len() && ahead(s, connections[k], direction) == x
}

/// Node `x` is among those that a walk in `direction` will go on to from hop `h`.
pub open spec fn pends<DATA>(s: &Schematic<DATA>, direction: WalkDirection, h: HopModel, x: NodeIndex) -> bool {
    match h {
        HopModel::Node { index } => x == index,
        HopModel::Port { port } => port_pends(s, direction, port, x),
        HopModel::Ports { node_index, direction: port_direction, ports, cur } => match port_direction {
            None => false,
            Some(pd) => if pd == entering(direction) {
                x == node_index
            } else {
                ports_pend(s, direction, ports, cur as int, x)
            },
        },
        HopModel::Connections { connections, cur } => connections_pend(s, direction, connections, cur as int, x),
        HopModel::Connection { connection } => ahead(s, connection, direction) == x,
    }
}

/// A step from a hop that will go on to a node that reaches a cycle yields a
/// hop, and the hops it leaves behind will still go on to such a node.
pub proof fn lemma_cycle_step<DATA>(s: &Schematic<DATA>, direction: WalkDirection, h: HopModel, x: NodeIndex) -> (y:
    NodeIndex)
    requires
        s.wf(),
        model_valid(s, h),
        pends(s, direction, h, x),
        reaches_cycle(s, direction, x),
    ensures
        reaches_cycle(s, direction, y),
        walk_spec(s, Some(h), direction).0 matches Some(n) && (pends(s, direction, n, y) || (walk_spec(
            s,
            Some(h),
            direction,
        ).1 matches Some(b) && pends(s, direction, b, y))),
{
    assert(entering(direction) != leaving(direction));
    match h {
        HopModel::Node { index } => {
            let (c, y) = lemma_cycle_successor(s, direction, x);
            let conn = s.connections@[c as int];
            let pb = behind_port(s, c, direction);
            assert(pb.node_index == index);
            assert(pb.direction == leaving(direction));
            assert(s.valid_port(pb));
            assert(s.port_connections(pb).contains(c));
            let k = choose|k: int| 0 <= k < s.port_connections(pb).len() && s.port_connections(pb)[k] == c;
            let refs = node_port_refs(s, index, leaving(direction));
            let i = pb.port_index as int;
            assert(refs[i] == pb);
            assert(s.port_connections(refs[i])[k] == c);
            assert(ahead(s, s.port_connections(refs[i])[k], direction) == y);
            assert(refs[i].direction != entering(direction));
            assert(port_pends(s, direction, refs[i], y));
            assert(refs.len() > 0);
            assert(0 <= i < refs.len());
            let hh = node_ports_model(s, index, leaving(direction));
            assert(ports_pend(s, direction, refs, 0, y));
            assert(pends(s, direction, hh, y));
            y
        },
        HopModel::Port { port } => {
            if port.direction == entering(direction) {
                assert(pends(s, direction, HopModel::Node { index: port.node_index }, x));
            } else {
                let k = choose|k: int|
                    #![trigger s.port_connections(port)[k]]
                    0 <= k < s.port_connections(port).len() && ahead(s, s.port_connections(port)[k], direction) == x;
                let cs = s.port_connections(port);
                assert(connections_pend(s, direction, cs, 0, x));
                let hh = HopModel::Connections { connections: cs, cur: 0 };
                assert(pends(s, direction, hh, x));
            }
            x
        },
        HopModel::Ports { node_index, direction: port_direction, ports, cur } => {
            let pd = port_direction.unwrap();
            if pd != entering(direction) {
                let i = choose|i: int| #![trigger ports[i]] cur <= i < ports.len() && port_pends(s, direction, ports[i], x);
                assert(ports_pend(s, direction, ports, cur as int, x));
                if i == cur {
                    assert(pends(s, direction, HopModel::Port { port: ports[cur as int] }, x));
                } else {
                    let next_cur: nat = cur + 1;
                    assert(next_cur <= i < ports.len() && port_pends(s, direction, ports[i], x));
                    let hh = HopModel::Ports { node_index, direction: port_direction, ports, cur: next_cur };
                    assert(ports_pend(s, direction, ports, next_cur as int, x));
                    assert(pends(s, direction, hh, x));
                }
            }
            x
        },
        HopModel::Connections { connections, cur } => {
            let k = choose|k: int| #![trigger connections[k]] cur <= k < connections.len() && ahead(s, connections[k], direction) == x;
            if k == cur {
                assert(pends(s, direction, HopModel::Connection { connection: connections[cur as int] }, x));
            } else {
                let next_cur: nat = cur + 1;
                assert(next_cur <= k < connections.len() && ahead(s, connections[k], direction) == x);
                assert(connections_pend(s, direction, connections, next_cur as int, x));
                let hh = HopModel::Connections { connections, cur: next_cur };
                assert(pends(s, direction, hh, x));
            }
            x
        },
        HopModel::Connection { connection } => {
            let conn = s.connections@[connection as int];
            assert(ahead_port(s, connection, direction).direction == entering(direction));
            assert(pends(s, direction, HopModel::Port { port: ahead_port(s, connection, direction) }, x));
            x
        },
    }
}

/// Some hop of the state will go on to a node that reaches a cycle.
pub open spec fn cycle_pending<DATA>(
    s: &Schematic<DATA>,
    direction: WalkDirection,
    last: Option<HopModel>,
    queue: Seq<HopModel>,
) -> bool {
    ||| exists|x: NodeIndex|
        #![trigger reaches_cycle(s, direction, x)]
        reaches_cycle(s, direction, x) && (last matches Some(h) && pends(s, direction, h, x))
    ||| exists|j: int, x: NodeIndex|
        #![trigger pends(s, direction, queue[j], x)]
        0 <= j < queue.len() && pends(s, direction, queue[j], x) && reaches_cycle(s, direction, x)
}

/// While a hop of the state will go on to a node that reaches a cycle, a
/// step yields a hop and leaves a state of which the same holds.
proof fn lemma_cycle_state_step<DATA>(
    s: &Schematic<DATA>,
    last: Option<HopModel>,
    queue: Seq<HopModel>,
    direction: WalkDirection,
)
    requires
        s.wf(),
        state_valid(s, last, queue),
        cycle_pending(s, direction, last, queue),
    ensures
        step_spec(s, last, queue, direction).0 is Some,
        cycle_pending(s, direction, step_spec(s, last, queue, direction).0, step_spec(s, last, queue, direction).1),
{
    let (next, branch) = walk_spec(s, last, direction);
    let queue1 = match branch {
        Some(b) => queue.push(b),
        None => queue,
    };
    let (n2, q2) = step_spec(s, last, queue, direction);
    if exists|x: NodeIndex|
        #![trigger reaches_cycle(s, direction, x)]
        reaches_cycle(s, direction, x) && (last matches Some(h) && pends(s, direction, h, x)) {
        let x = choose|x: NodeIndex|
            #![trigger reaches_cycle(s, direction, x)]
            reaches_cycle(s, direction, x) && (last matches Some(h) && pends(s, direction, h, x));
        let h = last.unwrap();
        let y = lemma_cycle_step(s, direction, h, x);
        let n = next.unwrap();
        assert(n2 == Some(n) && q2 == queue1);
        if pends(s, direction, n, y) {
            assert(reaches_cycle(s, direction, y) && (n2 matches Some(hh) && pends(s, direction, hh, y)));
        } else {
            let b = branch.unwrap();
            let j = queue.len() as int;
            assert(q2[j] == b);
            assert(0 <= j < q2.len() && pends(s, direction, q2[j], y) && reaches_cycle(s, direction, y));
        }
    } else {
        let (j, x) = choose|j: int, x: NodeIndex|
            #![trigger pends(s, direction, queue[j], x)]
            0 <= j < queue.len() && pends(s, direction, queue[j], x) && reaches_cycle(s, direction, x);
        if let Some(h) = last {
            lemma_walk_valid(s, h, direction);
        }
        assert(queue1[j] == queue[j]);
        if next is Some {
            assert(q2 == queue1);
            assert(0 <= j < q2.len() && pends(s, direction, q2[j], x) && reaches_cycle(s, direction, x));
        } else {
            assert(branch is None);
            assert(queue1 == queue);
            if j == queue.len() - 1 {
                assert(n2 == Some(queue.last()));
                assert(reaches_cycle(s, direction, x) && (n2 matches Some(hh) && pends(s, direction, hh, x)));
            } else {
                assert(q2 == queue.drop_last());
                assert(q2[j] == queue[j]);
                assert(0 <= j < q2.len() && pends(s, direction, q2[j], x) && reaches_cycle(s, direction, x));
            }
        }
    }
}

proof fn lemma_cycle_run<DATA>(
    s: &Schematic<DATA>,
    last: Option<HopModel>,
    queue: Seq<HopModel>,
    direction: WalkDirection,
    k: nat,
)
    requires
        s.wf(),
        state_valid(s, last, queue),
        cycle_pending(s, direction, last, queue),
    ensures
        state_valid(s, walk_run(s, last, queue, direction, k).0, walk_run(s, last, queue, direction, k).1),
        cycle_pending(s, direction, walk_run(s, last, queue, direction, k).0, walk_run(s, last, queue, direction, k).1),
        walk_run(s, last, queue, direction, k + 1).0 is Some,
    decreases k,
{
    if k > 0 {
        lemma_cycle_run(s, last, queue, direction, (k - 1) as nat);
        let prev = walk_run(s, last, queue, direction, (k - 1) as nat);
        lemma_step_valid(s, prev.0, prev.1, direction);
        lemma_cycle_state_step(s, prev.0, prev.1, direction);
    }
    let cur = walk_run(s, last, queue, direction, k);
    lemma_cycle_state_step(s, cur.0, cur.1, direction);
}

/// A walk never ends while one of its pending hops will go on to a node from
/// which a cycle of connections can be reached: every step yields a hop.
pub proof fn law_walk_into_cycle_never_ends<DATA>(
    s: &Schematic<DATA>,
    last: Option<HopModel>,
    queue: Seq<HopModel>,
    direction: WalkDirection,
    k: nat,
)
    requires
        s.wf(),
        state_valid(s, last, queue),
        cycle_pending(s, direction, last, queue),
    ensures
        walk_run(s, last, queue, direction, k + 1).0 is Some,
{
    lemma_cycle_run(s, last, queue, direction, k);
}

/// `dom` is closed under following connections in `direction`, and `rank`
/// strictly decreases along every connection that leaves a node of `dom`:
/// no cycle of connections can be reached from `dom`.
pub open spec fn ranked<DATA>(
    s: &Schematic<DATA>,
    direction: WalkDirection,
    rank: spec_fn(NodeIndex) -> nat,
    dom: Set<NodeIndex>,
) -> bool {
    forall|c: ConnectionIndex|
        #![trigger behind(s, c, direction)]
        c < s.connections@.len() && dom.contains(behind(s, c, direction)) ==> {
            &&& dom.contains(ahead(s, c, direction))
            &&& rank(ahead(s, c, direction)) < rank(behind(s, c, direction))
        }
}

/// Hop `h` is valid and every node it will go on to lies in `dom`.
pub open spec fn hop_ranked<DATA>(s: &Schematic<DATA>, direction: WalkDirection, dom: Set<NodeIndex>, h: HopModel) -> bool {
    &&& model_valid(s, h)
    &&& forall|x: NodeIndex| #[trigger] pends(s, direction, h, x) ==> dom.contains(x)
}

/// The largest of `1 + rank` of the far ends of `connections` from position
/// `cur` on, or 0 when there is none.
pub open spec fn connections_level<DATA>(
    s: &Schematic<DATA>,
    direction: WalkDirection,
    rank: spec_fn(NodeIndex) -> nat,
    connections: Seq<ConnectionIndex>,
    cur: int,
) -> nat
    decreases connections.len() - cur,
{
    if cur < 0 || cur >= connections.len() {
        0
    } else {
        let here = 1 + rank(ahead(s, connections[cur], direction));
        let rest = connections_level(s, direction, rank, connections, cur + 1);
        if here >= rest {
            here
        } else {
            rest
        }
    }
}

/// The level of a port through which a walk leaves a node.
pub open spec fn port_level<DATA>(
    s: &Schematic<DATA>,
    direction: WalkDirection,
    rank: spec_fn(NodeIndex) -> nat,
    p: PortReference,
) -> nat {
    if p.direction == entering(direction) {
        rank(p.node_index)
    } else {
        connections_level(s, direction, rank, s.port_connections(p), 0)
    }
}

/// The largest level of the ports of `ports` from position `cur` on, or 0.
pub open spec fn ports_level<DATA>(
    s: &Schematic<DATA>,
    direction: WalkDirection,
    rank: spec_fn(NodeIndex) -> nat,
    ports: Seq<PortReference>,
    cur: int,
) -> nat
    decreases ports.len() - cur,
{
    if cur < 0 || cur >= ports.len() {
        0
    } else {
        let here = port_level(s, direction, rank, ports[cur]);
        let rest = ports_level(s, direction, rank, ports, cur + 1);
        if here >= rest {
            here
        } else {
            rest
        }
    }
}

/// The level of a hop: the rank of the node it is at, or one more than the
/// largest rank of the nodes its connections lead to.
pub open spec fn hop_level<DATA>(
    s: &Schematic<DATA>,
    direction: WalkDirection,
    rank: spec_fn(NodeIndex) -> nat,
    h: HopModel,
) -> nat {
    match h {
        HopModel::Node { index } => rank(index),
        HopModel::Port { port } => port_level(s, direction, rank, port),
        HopModel::Ports { node_index, direction: port_direction, ports, cur } => match port_direction {
            None => 0,
            Some(pd) => if pd == entering(direction) {
                rank(node_index)
            } else {
                ports_level(s, direction, rank, ports, cur as int)
            },
        },
        HopModel::Connections { connections, cur } => connections_level(s, direction, rank, connections, cur as int),
        HopModel::Connection { connection } => 1 + rank(ahead(s, connection, direction)),
    }
}

/// Where a hop stands in the visit of its node: entering it, the node, its
/// leaving ports, one leaving port, a list of connections, one connection.
pub open spec fn hop_phase(direction: WalkDirection, h: HopModel) -> nat {
    match h {
        HopModel::Node { .. } => 5,
        HopModel::Port { port } => if port.direction == entering(direction) {
            6
        } else {
            3
        },
        HopModel::Ports { direction: port_direction, .. } => match port_direction {
            None => 0,
            Some(pd) => if pd == entering(direction) {
                6
            } else {
                4
            },
        },
        HopModel::Connections { .. } => 2,
        HopModel::Connection { .. } => 1,
    }
}

/// How many items of a list remain to be iterated.
pub open spec fn hop_rest(h: HopModel) -> nat {
    match h {
        HopModel::Ports { ports, cur, .. } => if cur <= ports.len() {
            (ports.len() - cur) as nat
        } else {
            0
        },
        HopModel::Connections { connections, cur } => if cur <= connections.len() {
            (connections.len() - cur) as nat
        } else {
            0
        },
        _ => 0,
    }
}

/// When every connection of `connections` from `cur` on leads to a rank
/// below `bound`, their level is at most `bound`.
proof fn lemma_connections_level_bound<DATA>(
    s: &Schematic<DATA>,
    direction: WalkDirection,
    rank: spec_fn(NodeIndex) -> nat,
    connections: Seq<ConnectionIndex>,
    cur: int,
    bound: nat,
)
    requires
        0 <= cur,
        forall|k: int| #![trigger connections[k]] cur <= k < connections.len() ==> 1 + rank(ahead(s, connections[k], direction)) <= bound,
    ensures
        connections_level(s, direction, rank, connections, cur) <= bound,
    decreases connections.len() - cur,
{
    if cur < connections.len() {
        lemma_connections_level_bound(s, direction, rank, connections, cur + 1, bound);
        assert(1 + rank(ahead(s, connections[cur], direction)) <= bound);
    }
}

/// When every port of `ports` from `cur` on has a level of at most `bound`,
/// so do they all.
proof fn lemma_ports_level_bound<DATA>(
    s: &Schematic<DATA>,
    direction: WalkDirection,
    rank: spec_fn(NodeIndex) -> nat,
    ports: Seq<PortReference>,
    cur: int,
    bound: nat,
)
    requires
        0 <= cur,
        forall|i: int| #![trigger ports[i]] cur <= i < ports.len() ==> port_level(s, direction, rank, ports[i]) <= bound,
    ensures
        ports_level(s, direction, rank, ports, cur) <= bound,
    decreases ports.len() - cur,
{
    if cur < ports.len() {
        lemma_ports_level_bound(s, direction, rank, ports, cur + 1, bound);
        assert(port_level(s, direction, rank, ports[cur]) <= bound);
    }
}

/// `a` comes strictly before `b` in the order of (level, phase, rest).
pub open spec fn lex_below(a: (nat, nat, nat), b: (nat, nat, nat)) -> bool {
    ||| a.0 < b.0
    ||| a.0 == b.0 && a.1 < b.1
    ||| a.0 == b.0 && a.1 == b.1 && a.2 < b.2
}

pub open spec fn hop_measure<DATA>(
    s: &Schematic<DATA>,
    direction: WalkDirection,
    rank: spec_fn(NodeIndex) -> nat,
    h: HopModel,
) -> (nat, nat, nat) {
    (hop_level(s, direction, rank, h), hop_phase(direction, h), hop_rest(h))
}

/// Under a ranking, the hops that follow a hop come before it in the order
/// of (level, phase, rest), and stay ranked.
pub proof fn lemma_ranked_step<DATA>(
    s: &Schematic<DATA>,
    direction: WalkDirection,
    rank: spec_fn(NodeIndex) -> nat,
    dom: Set<NodeIndex>,
    h: HopModel,
)
    requires
        s.wf(),
        ranked(s, direction, rank, dom),
        hop_ranked(s, direction, dom, h),
    ensures
        walk_spec(s, Some(h), direction).0 matches Some(n) ==> hop_ranked(s, direction, dom, n) && lex_below(
            hop_measure(s, direction, rank, n),
            hop_measure(s, direction, rank, h),
        ),
        walk_spec(s, Some(h), direction).1 matches Some(b) ==> hop_ranked(s, direction, dom, b) && lex_below(
            hop_measure(s, direction, rank, b),
            hop_measure(s, direction, rank, h),
        ),
{
    lemma_walk_valid(s, h, direction);
    assert(entering(direction) != leaving(direction));
    let (next, branch) = walk_spec(s, Some(h), direction);
    match h {
        HopModel::Node { index } => {
            assert(pends(s, direction, h, index));
            let refs = node_port_refs(s, index, leaving(direction));
            if refs.len() > 0 {
                let n = next.unwrap();
                assert(n == node_ports_model(s, index, leaving(direction)));
                // Every port of the node leads only to lower ranks.
                assert forall|i: int| #![trigger refs[i]] 0 <= i < refs.len() implies port_level(
                    s,
                    direction,
                    rank,
                    refs[i],
                ) <= rank(index) by {
                    let p = refs[i];
                    assert(s.valid_port(p));
                    let cs = s.port_connections(p);
                    assert forall|k: int| #![trigger cs[k]] 0 <= k < cs.len() implies 1 + rank(
                        ahead(s, cs[k], direction),
                    ) <= rank(index) by {
                        assert(s.port_connections(p)[k] < s.connections@.len());
                        assert(s.connections@[cs[k] as int].end_at(p.direction) == p);
                        assert(behind(s, cs[k], direction) == index);
                    }
                    lemma_connections_level_bound(s, direction, rank, cs, 0, rank(index));
                }
                lemma_ports_level_bound(s, direction, rank, refs, 0, rank(index));
                assert forall|y: NodeIndex| #[trigger] pends(s, direction, n, y) implies dom.contains(y) by {
                    assert(ports_pend(s, direction, refs, 0, y));
                    let i = choose|i: int| #![trigger refs[i]] 0 <= i < refs.len() && port_pends(s, direction, refs[i], y);
                    let p = refs[i];
                    assert(s.valid_port(p));
                    let k = choose|k: int|
                        #![trigger s.port_connections(p)[k]]
                        0 <= k < s.port_connections(p).len() && ahead(s, s.port_connections(p)[k], direction) == y;
                    let c = s.port_connections(p)[k];
                    assert(c < s.connections@.len());
                    assert(s.connections@[c as int].end_at(p.direction) == p);
                    assert(behind(s, c, direction) == index);
                }
            }
        },
        HopModel::Port { port } => {
            if port.direction == entering(direction) {
                assert(pends(s, direction, h, port.node_index));
            } else {
                let cs = s.port_connections(port);
                if cs.len() > 0 {
                    let n = next.unwrap();
                    assert forall|y: NodeIndex| #[trigger] pends(s, direction, n, y) implies dom.contains(y) by {
                        assert(connections_pend(s, direction, cs, 0, y));
                        let k = choose|k: int| #![trigger cs[k]] 0 <= k < cs.len() && ahead(s, cs[k], direction) == y;
                        assert(port_pends(s, direction, port, y));
                        assert(pends(s, direction, h, y));
                    }
                }
            }
        },
        HopModel::Ports { node_index, direction: port_direction, ports, cur } => {
            if let Some(pd) = port_direction {
                if pd == entering(direction) {
                    assert(pends(s, direction, h, node_index));
                } else if cur < ports.len() {
                    let n = next.unwrap();
                    let b = branch.unwrap();
                    assert(ports[cur as int].direction == pd);
                    assert forall|y: NodeIndex| #[trigger] pends(s, direction, n, y) implies dom.contains(y) by {
                        assert(ports_pend(s, direction, ports, cur as int, y));
                        assert(pends(s, direction, h, y));
                    }
                    assert forall|y: NodeIndex| #[trigger] pends(s, direction, b, y) implies dom.contains(y) by {
                        assert(ports_pend(s, direction, ports, (cur + 1) as int, y));
                        let i = choose|i: int| #![trigger ports[i]] cur + 1 <= i < ports.len() && port_pends(s, direction, ports[i], y);
                        assert(ports_pend(s, direction, ports, cur as int, y));
                        assert(pends(s, direction, h, y));
                    }
                }
            }
        },
        HopModel::Connections { connections, cur } => {
            if cur < connections.len() {
                let n = next.unwrap();
                let b = branch.unwrap();
                assert forall|y: NodeIndex| #[trigger] pends(s, direction, n, y) implies dom.contains(y) by {
                    assert(connections_pend(s, direction, connections, cur as int, y));
                    assert(pends(s, direction, h, y));
                }
                assert forall|y: NodeIndex| #[trigger] pends(s, direction, b, y) implies dom.contains(y) by {
                    assert(connections_pend(s, direction, connections, (cur + 1) as int, y));
                    let k = choose|k: int| #![trigger connections[k]] cur + 1 <= k < connections.len() && ahead(s, connections[k], direction) == y;
                    assert(connections_pend(s, direction, connections, cur as int, y));
                    assert(pends(s, direction, h, y));
                }
            }
        },
        HopModel::Connection { connection } => {
            assert(ahead_port(s, connection, direction).direction == entering(direction));
            assert(pends(s, direction, h, ahead(s, connection, direction)));
        },
    }
}

/// What remains of a walk from hop `h` when nothing else is pending: the
/// number of hops it still yields.
pub open spec fn walk_cost<DATA>(
    s: &Schematic<DATA>,
    direction: WalkDirection,
    rank: spec_fn(NodeIndex) -> nat,
    dom: Set<NodeIndex>,
    h: HopModel,
) -> nat
    decreases hop_level(s, direction, rank, h), hop_phase(direction, h), hop_rest(h),
    when s.wf() && ranked(s, direction, rank, dom) && hop_ranked(s, direction, dom, h)
{
    proof {
        lemma_ranked_step(s, direction, rank, dom, h);
    }
    match walk_spec(s, Some(h), direction) {
        (Some(n), Some(b)) => 2 + walk_cost(s, direction, rank, dom, n) + walk_cost(s, direction, rank, dom, b),
        (Some(n), None) => 1 + walk_cost(s, direction, rank, dom, n),
        _ => 0,
    }
}

/// The number of hops that the pending hops of `queue` still yield: each is
/// yielded again when it is resumed, then what remains of it.
pub open spec fn queue_cost<DATA>(
    s: &Schematic<DATA>,
    direction: WalkDirection,
    rank: spec_fn(NodeIndex) -> nat,
    dom: Set<NodeIndex>,
    queue: Seq<HopModel>,
) -> nat
    decreases queue.len(),
{
    if queue.len() == 0 {
        0
    } else {
        queue_cost(s, direction, rank, dom, queue.drop_last()) + 1 + walk_cost(s, direction, rank, dom, queue.last())
    }
}

/// The number of hops that a walk from `last` and `queue` still yields.
pub open spec fn state_cost<DATA>(
    s: &Schematic<DATA>,
    direction: WalkDirection,
    rank: spec_fn(NodeIndex) -> nat,
    dom: Set<NodeIndex>,
    last: Option<HopModel>,
    queue: Seq<HopModel>,
) -> nat {
    (match last {
        Some(h) => walk_cost(s, direction, rank, dom, h),
        None => 0,
    }) + queue_cost(s, direction, rank, dom, queue)
}

/// Every hop of the state is ranked.
pub open spec fn state_ranked<DATA>(
    s: &Schematic<DATA>,
    direction: WalkDirection,
    dom: Set<NodeIndex>,
    last: Option<HopModel>,
    queue: Seq<HopModel>,
) -> bool {
    &&& (last matches Some(h) ==> hop_ranked(s, direction, dom, h))
    &&& forall|j: int| 0 <= j < queue.len() ==> hop_ranked(s, direction, dom, #[trigger] queue[j])
}

/// Under a ranking, each step that yields a hop lowers the number of hops
/// still to come by one, and a step yields nothing only when none is to come.
proof fn lemma_ranked_state_step<DATA>(
    s: &Schematic<DATA>,
    direction: WalkDirection,
    rank: spec_fn(NodeIndex) -> nat,
    dom: Set<NodeIndex>,
    last: Option<HopModel>,
    queue: Seq<HopModel>,
)
    requires
        s.wf(),
        ranked(s, direction, rank, dom),
        state_ranked(s, direction, dom, last, queue),
    ensures
        ({
            let (n2, q2) = step_spec(s, last, queue, direction);
            &&& state_ranked(s, direction, dom, n2, q2)
            &&& (n2 is Some ==> state_cost(s, direction, rank, dom, n2, q2) + 1 == state_cost(
                s,
                direction,
                rank,
                dom,
                last,
                queue,
            ))
            &&& (n2 is None <==> state_cost(s, direction, rank, dom, last, queue) == 0)
        }),
{
    let (next, branch) = walk_spec(s, last, direction);
    let queue1 = match branch {
        Some(b) => queue.push(b),
        None => queue,
    };
    let (n2, q2) = step_spec(s, last, queue, direction);
    if let Some(h) = last {
        lemma_ranked_step(s, direction, rank, dom, h);
        lemma_walk_valid(s, h, direction);
    }
    assert forall|j: int| 0 <= j < queue1.len() implies hop_ranked(s, direction, dom, #[trigger] queue1[j]) by {
        if j < queue.len() {
            assert(queue1[j] == queue[j]);
        }
    }
    if let Some(b) = branch {
        assert(queue1.drop_last() =~= queue);
        assert(queue_cost(s, direction, rank, dom, queue1) == queue_cost(s, direction, rank, dom, queue) + 1
            + walk_cost(s, direction, rank, dom, b));
    }
    if next is Some {
        assert(n2 == next && q2 == queue1);
    } else {
        assert(branch is None);
        if queue.len() > 0 {
            let q = queue.drop_last();
            assert(q2 == q && n2 == Some(queue.last()));
            assert forall|j: int| 0 <= j < q.len() implies hop_ranked(s, direction, dom, #[trigger] q[j]) by {
                assert(q[j] == queue[j]);
            }
            assert(hop_ranked(s, direction, dom, queue[queue.len() - 1]));
        }
    }
}

proof fn lemma_ranked_run<DATA>(
    s: &Schematic<DATA>,
    direction: WalkDirection,
    rank: spec_fn(NodeIndex) -> nat,
    dom: Set<NodeIndex>,
    last: Option<HopModel>,
    queue: Seq<HopModel>,
    k: nat,
)
    requires
        s.wf(),
        ranked(s, direction, rank, dom),
        state_ranked(s, direction, dom, last, queue),
        k <= state_cost(s, direction, rank, dom, last, queue),
    ensures
        ({
            let st = walk_run(s, last, queue, direction, k);
            &&& state_ranked(s, direction, dom, st.0, st.1)
            &&& state_cost(s, direction, rank, dom, st.0, st.1) + k == state_cost(s, direction, rank, dom, last, queue)
            &&& (k >= 1 ==> st.0 is Some)
        }),
    decreases k,
{
    if k > 0 {
        lemma_ranked_run(s, direction, rank, dom, last, queue, (k - 1) as nat);
        let prev = walk_run(s, last, queue, direction, (k - 1) as nat);
        lemma_ranked_state_step(s, direction, rank, dom, prev.0, prev.1);
    }
}

/// A walk from which no cycle of connections can be reached ends: when the
/// nodes its pending hops lead to lie in a set `dom` that is closed under
/// following connections and ranked so that every connection leads to a
/// lower rank, the walk yields exactly `state_cost` hops and then nothing.
pub proof fn law_walk_without_cycle_ends<DATA>(
    s: &Schematic<DATA>,
    direction: WalkDirection,
    rank: spec_fn(NodeIndex) -> nat,
    dom: Set<NodeIndex>,
    last: Option<HopModel>,
    queue: Seq<HopModel>,
)
    requires
        s.wf(),
        ranked(s, direction, rank, dom),
        state_ranked(s, direction, dom, last, queue),
    ensures
        forall|k: nat|
            1 <= k <= state_cost(s, direction, rank, dom, last, queue) ==> (#[trigger] walk_run(
                s,
                last,
                queue,
                direction,
                k,
            )).0 is Some,
        walk_run(s, last, queue, direction, state_cost(s, direction, rank, dom, last, queue) + 1).0 is None,
{
    let m = state_cost(s, direction, rank, dom, last, queue);
    assert forall|k: nat| 1 <= k <= m implies (#[trigger] walk_run(s, last, queue, direction, k)).0 is Some by {
        lemma_ranked_run(s, direction, rank, dom, last, queue, k);
    }
    lemma_ranked_run(s, direction, rank, dom, last, queue, m);
    let st = walk_run(s, last, queue, direction, m);
    lemma_ranked_state_step(s, direction, rank, dom, st.0, st.1);
}

/// No node of a ranked set reaches a cycle: ranks fall along every path, so
/// no path comes back to one of its nodes.
pub proof fn law_ranked_nodes_reach_no_cycle<DATA>(
    s: &Schematic<DATA>,
    direction: WalkDirection,
    rank: spec_fn(NodeIndex) -> nat,
    dom: Set<NodeIndex>,
    x: NodeIndex,
)
    requires
        ranked(s, direction, rank, dom),
        dom.contains(x),
    ensures
        !reaches_cycle(s, direction, x),
{
    if reaches_cycle(s, direction, x) {
        let (p, i) = choose|p: Seq<NodeIndex>, i: int|
            #![trigger is_path(s, direction, p), p[i]]
            is_path(s, direction, p) && p[0] == x && 0 <= i < p.len() - 1 && p[i] == p.last();
        lemma_path_ranks_fall(s, direction, rank, dom, p, i, p.len() - 1);
    }
}

proof fn lemma_path_ranks_fall<DATA>(
    s: &Schematic<DATA>,
    direction: WalkDirection,
    rank: spec_fn(NodeIndex) -> nat,
    dom: Set<NodeIndex>,
    p: Seq<NodeIndex>,
    i: int,
    j: int,
)
    requires
        ranked(s, direction, rank, dom),
        is_path(s, direction, p),
        dom.contains(p[0]),
        0 <= i < p.len(),
        0 <= j < p.len(),
    ensures
        dom.contains(p[j]),
        i < j ==> rank(p[j]) < rank(p[i]),
    decreases j,
{
    if j > 0 {
        lemma_path_ranks_fall(s, direction, rank, dom, p, i, j - 1);
        assert(step_edge(s, direction, p[j - 1], p[j]));
        let c = choose|c: ConnectionIndex|
            #![trigger behind(s, c, direction), ahead(s, c, direction)]
            c < s.connections@.len() && behind(s, c, direction) == p[j - 1] && ahead(s, c, direction) == p[j];
    }
}

/// The nodes that following connections in `direction` can reach from `x`, `x` included.
pub open spec fn reach_from<DATA>(s: &Schematic<DATA>, direction: WalkDirection, x: NodeIndex) -> Set<NodeIndex> {
    Set::new(|y: NodeIndex| exists|p: Seq<NodeIndex>| #[trigger] is_path(s, direction, p) && p[0] == x && p.last() == y)
}

/// Some hop of the state will go on to node `x`.
pub open spec fn pending_in<DATA>(
    s: &Schematic<DATA>,
    direction: WalkDirection,
    last: Option<HopModel>,
    queue: Seq<HopModel>,
    x: NodeIndex,
) -> bool {
    ||| (last matches Some(h) && pends(s, direction, h, x))
    ||| exists|j: int| 0 <= j < queue.len() && #[trigger] pends(s, direction, queue[j], x)
}

/// A path followed by another one that starts where the first ends.
proof fn lemma_path_concat<DATA>(s: &Schematic<DATA>, direction: WalkDirection, p: Seq<NodeIndex>, q: Seq<NodeIndex>)
    requires
        is_path(s, direction, p),
        is_path(s, direction, q),
        p.last() == q[0],
    ensures
        is_path(s, direction, p + q.drop_first()),
        (p + q.drop_first())[0] == p[0],
        (p + q.drop_first()).last() == q.last(),
        forall|i: int| 0 <= i < q.len() ==> #[trigger] (p + q.drop_first())[p.len() - 1 + i] == q[i],
{
    let r = p + q.drop_first();
    assert forall|i: int| 0 <= i < q.len() implies #[trigger] r[p.len() - 1 + i] == q[i] by {
        if i > 0 {
            assert(r[p.len() - 1 + i] == q.drop_first()[i - 1]);
        }
    }
    assert forall|j: int| #![trigger r[j]] 0 <= j < r.len() - 1 implies step_edge(s, direction, r[j], r[j + 1]) by {
        if j < p.len() - 1 {
            assert(r[j] == p[j] && r[j + 1] == p[j + 1]);
            assert(step_edge(s, direction, p[j], p[j + 1]));
        } else {
            let i = j - (p.len() - 1);
            assert(r[p.len() - 1 + i] == q[i]);
            assert(r[p.len() - 1 + (i + 1)] == q[i + 1]);
            assert(step_edge(s, direction, q[i], q[i + 1]));
        }
    }
    if q.len() > 1 {
        assert(r.last() == r[p.len() - 1 + (q.len() - 1)]);
    }
}

/// A node from which a node that reaches a cycle can be reached reaches a cycle too.
proof fn lemma_cycle_back<DATA>(s: &Schematic<DATA>, direction: WalkDirection, p: Seq<NodeIndex>)
    requires
        is_path(s, direction, p),
        reaches_cycle(s, direction, p.last()),
    ensures
        reaches_cycle(s, direction, p[0]),
{
    let (q, i) = choose|q: Seq<NodeIndex>, i: int|
        #![trigger is_path(s, direction, q), q[i]]
        is_path(s, direction, q) && q[0] == p.last() && 0 <= i < q.len() - 1 && q[i] == q.last();
    lemma_path_concat(s, direction, p, q);
    let r = p + q.drop_first();
    let ri = p.len() - 1 + i;
    assert(r[ri] == q[i]);
    assert(is_path(s, direction, r) && r[0] == p[0] && 0 <= ri < r.len() - 1 && r[ri] == r.last());
}

/// The nodes reachable from the nodes that the state will go on to.
pub open spec fn pending_reach<DATA>(
    s: &Schematic<DATA>,
    direction: WalkDirection,
    last: Option<HopModel>,
    queue: Seq<HopModel>,
) -> Set<NodeIndex> {
    Set::new(
        |y: NodeIndex| exists|x: NodeIndex| #[trigger] pending_in(s, direction, last, queue, x) && reach_from(s, direction, x).contains(y),
    )
}

/// Along a connection out of a node reachable from a pending node that
/// reaches no cycle, the set of reachable nodes shrinks.
proof fn lemma_ranking_edge<DATA>(
    s: &Schematic<DATA>,
    direction: WalkDirection,
    last: Option<HopModel>,
    queue: Seq<HopModel>,
    c: ConnectionIndex,
)
    requires
        c < s.connections@.len(),
        forall|x: NodeIndex| #[trigger] pending_in(s, direction, last, queue, x) ==> !reaches_cycle(s, direction, x),
        pending_reach(s, direction, last, queue).contains(behind(s, c, direction)),
    ensures
        pending_reach(s, direction, last, queue).contains(ahead(s, c, direction)),
        reach_from(s, direction, ahead(s, c, direction)).len() < reach_from(s, direction, behind(s, c, direction)).len(),
{
    let dom = pending_reach(s, direction, last, queue);
    let a = behind(s, c, direction);
    let b = ahead(s, c, direction);
    let x = choose|x: NodeIndex| #[trigger] pending_in(s, direction, last, queue, x) && reach_from(s, direction, x).contains(a);
    let p = choose|p: Seq<NodeIndex>| #[trigger] is_path(s, direction, p) && p[0] == x && p.last() == a;
    assert(step_edge(s, direction, a, b));
    let ab = seq![a, b];
    assert(is_path(s, direction, ab)) by {
        assert(ab[0] == a && ab[1] == b);
    }
    lemma_path_concat(s, direction, p, ab);
    let pb = p + ab.drop_first();
    assert(is_path(s, direction, pb) && pb[0] == x && pb.last() == b);
    assert(reach_from(s, direction, x).contains(b));
    assert(dom.contains(b));
    let ra = reach_from(s, direction, a);
    let rb = reach_from(s, direction, b);
    assert forall|y: NodeIndex| rb.contains(y) implies ra.remove(a).contains(y) by {
        let q = choose|q: Seq<NodeIndex>| #[trigger] is_path(s, direction, q) && q[0] == b && q.last() == y;
        lemma_path_concat(s, direction, ab, q);
        let aq = ab + q.drop_first();
        assert(is_path(s, direction, aq) && aq[0] == a && aq.last() == y);
        assert(ra.contains(y));
        if y == a {
            assert(aq.len() >= 2);
            assert(is_path(s, direction, aq) && aq[0] == a && 0 <= 0int < aq.len() - 1 && aq[0] == aq.last());
            assert(reaches_cycle(s, direction, a));
            lemma_cycle_back(s, direction, p);
        }
    }
    let pa = seq![a];
    assert(is_path(s, direction, pa) && pa[0] == a && pa.last() == a);
    assert(ra.contains(a));
    broadcast use full_set_properties;
    assert(Set::<NodeIndex>::full().finite());
    vstd::set_lib::lemma_len_subset(ra, Set::<NodeIndex>::full());
    vstd::set_lib::lemma_len_subset(rb, ra.remove(a));
}

/// When no pending node of the state reaches a cycle, the nodes reachable
/// from the pending ones, ranked by how many nodes each reaches, form a ranking
/// that covers the state.
proof fn lemma_ranking_exists<DATA>(
    s: &Schematic<DATA>,
    direction: WalkDirection,
    last: Option<HopModel>,
    queue: Seq<HopModel>,
) -> (r: (spec_fn(NodeIndex) -> nat, Set<NodeIndex>))
    requires
        s.wf(),
        state_valid(s, last, queue),
        !cycle_pending(s, direction, last, queue),
    ensures
        ranked(s, direction, r.0, r.1),
        state_ranked(s, direction, r.1, last, queue),
{
    let dom = pending_reach(s, direction, last, queue);
    let rank = |y: NodeIndex| reach_from(s, direction, y).len();
    assert forall|x: NodeIndex| #[trigger] pending_in(s, direction, last, queue, x) implies !reaches_cycle(s, direction, x) by {
        if reaches_cycle(s, direction, x) {
            if last matches Some(h) && pends(s, direction, h, x) {
                assert(reaches_cycle(s, direction, x) && (last matches Some(h) && pends(s, direction, h, x)));
            } else {
                let j = choose|j: int| 0 <= j < queue.len() && #[trigger] pends(s, direction, queue[j], x);
                assert(0 <= j < queue.len() && pends(s, direction, queue[j], x) && reaches_cycle(s, direction, x));
            }
        }
    }
    assert forall|x: NodeIndex| #[trigger] pending_in(s, direction, last, queue, x) implies dom.contains(x) by {
        let p = seq![x];
        assert(is_path(s, direction, p) && p[0] == x && p.last() == x);
        assert(reach_from(s, direction, x).contains(x));
    }
    assert forall|c: ConnectionIndex|
        #![trigger behind(s, c, direction)]
        c < s.connections@.len() && dom.contains(behind(s, c, direction)) implies {
            &&& dom.contains(ahead(s, c, direction))
            &&& rank(ahead(s, c, direction)) < rank(behind(s, c, direction))
        } by {
        lemma_ranking_edge(s, direction, last, queue, c);
    }
    assert forall|j: int| 0 <= j < queue.len() implies hop_ranked(s, direction, dom, #[trigger] queue[j]) by {
        assert forall|x: NodeIndex| #[trigger] pends(s, direction, queue[j], x) implies dom.contains(x) by {
            assert(pending_in(s, direction, last, queue, x));
        }
    }
    if let Some(h) = last {
        assert forall|x: NodeIndex| #[trigger] pends(s, direction, h, x) implies dom.contains(x) by {
            assert(pending_in(s, direction, last, queue, x));
        }
    }
    (rank, dom)
}

/// A walk ends exactly when none of its pending hops will go on to a node
/// from which a cycle of connections can be reached.  Otherwise every step
/// yields a hop (see `law_walk_into_cycle_never_ends`); when it ends, it does
/// so after finitely many hops and then stays ended (see
/// `law_ended_walk_stays_ended`).
pub proof fn law_walk_ends_iff_no_cycle_is_reachable<DATA>(
    s: &Schematic<DATA>,
    direction: WalkDirection,
    last: Option<HopModel>,
    queue: Seq<HopModel>,
)
    requires
        s.wf(),
        state_valid(s, last, queue),
    ensures
        (exists|m: nat| (#[trigger] walk_run(s, last, queue, direction, m + 1)).0 is None) <==> !cycle_pending(
            s,
            direction,
            last,
            queue,
        ),
{
    if cycle_pending(s, direction, last, queue) {
        assert forall|m: nat| !((#[trigger] walk_run(s, last, queue, direction, m + 1)).0 is None) by {
            law_walk_into_cycle_never_ends(s, last, queue, direction, m);
        }
    } else {
        let (rank, dom) = lemma_ranking_exists(s, direction, last, queue);
        law_walk_without_cycle_ends(s, direction, rank, dom, last, queue);
        let m = state_cost(s, direction, rank, dom, last, queue);
        assert(walk_run(s, last, queue, direction, m + 1).0 is None);
    }
}

} // verus!
