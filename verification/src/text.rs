use vstd::prelude::*;

use crate::hops::{HopModel, SchematicHop};
use crate::schematic::{ConnectionIndex, PortDirection, PortReference, Schematic};

verus! {

/// `IN` or `OUT`.
pub open spec fn direction_text(d: PortDirection) -> Seq<char> {
    match d {
        PortDirection::In => "IN"@,
        PortDirection::Out => "OUT"@,
    }
}

/// The items of `list` with `sep` between each two of them.
pub open spec fn join_text(list: Seq<Seq<char>>, sep: Seq<char>) -> Seq<char>
    decreases list.len(),
{
    if list.len() == 0 {
        Seq::empty()
    } else if list.len() == 1 {
        list[0]
    } else {
        join_text(list.drop_last(), sep) + sep + list.last()
    }
}

/// A port as `node.DIRECTION.port`, e.g. `<input>.IN.name`.
pub open spec fn port_text<DATA>(s: &Schematic<DATA>, p: PortReference) -> Seq<char> {
    s.nodes@[p.node_index as int].name@ + "."@ + direction_text(p.direction) + "."@ + s.port_at(p).name@
}

/// A list of ports, separated by `, `.
pub open spec fn ports_text<DATA>(s: &Schematic<DATA>, ports: Seq<PortReference>) -> Seq<char> {
    join_text(ports.map_values(|p: PortReference| port_text(s, p)), ", "@)
}

/// A connection as `from=>to`.
pub open spec fn connection_text<DATA>(s: &Schematic<DATA>, c: ConnectionIndex) -> Seq<char> {
    port_text(s, s.connections@[c as int].from) + "=>"@ + port_text(s, s.connections@[c as int].to)
}

/// A list of connections, separated by `, `.
pub open spec fn connections_text<DATA>(s: &Schematic<DATA>, connections: Seq<ConnectionIndex>) -> Seq<char> {
    join_text(connections.map_values(|c: ConnectionIndex| connection_text(s, c)), ", "@)
}

/// A hop as `Kind:description`.
pub open spec fn hop_text<DATA>(s: &Schematic<DATA>, h: HopModel) -> Seq<char> {
    match h {
        HopModel::Node { index } => "Node:"@ + s.nodes@[index as int].name@,
        HopModel::Port { port } => "Port:"@ + port_text(s, port),
        HopModel::Ports { ports, .. } => "Ports:"@ + ports_text(s, ports),
        HopModel::Connections { connections, .. } => "Connections:"@ + connections_text(s, connections),
        HopModel::Connection { connection } => "Connection:"@ + connection_text(s, connection),
    }
}

/// Appends the text of port `p` of `s` to `out`.
fn push_port_text<DATA>(out: &mut String, s: &Schematic<DATA>, p: PortReference)
    requires
        s.valid_port(p),
    ensures
        final(out)@ == old(out)@ + port_text(s, p),
{
    let node = &s.nodes[p.node_index];
    out.append(node.name.as_str());
    out.append(".");
    match p.direction {
        PortDirection::In => out.append("IN"),
        PortDirection::Out => out.append("OUT"),
    }
    out.append(".");
    let port = match p.direction {
        PortDirection::In => &node.inputs[p.port_index],
        PortDirection::Out => &node.outputs[p.port_index],
    };
    out.append(port.name.as_str());
    proof {
        assert(final(out)@ =~= old(out)@ + port_text(s, p));
    }
}

/// Appends the text of connection `c` of `s` to `out`.
fn push_connection_text<DATA>(out: &mut String, s: &Schematic<DATA>, c: ConnectionIndex)
    requires
        s.wf(),
        c < s.connections@.len(),
    ensures
        final(out)@ == old(out)@ + connection_text(s, c),
{
    let conn = &s.connections[c];
    push_port_text(out, s, conn.from);
    out.append("=>");
    push_port_text(out, s, conn.to);
    proof {
        assert(final(out)@ =~= old(out)@ + connection_text(s, c));
    }
}

/// Joining one more item appends the separator and the item.
pub(crate) proof fn lemma_join_step(list: Seq<Seq<char>>, sep: Seq<char>, i: int)
    requires
        0 <= i < list.len(),
    ensures
        join_text(list.take(i + 1), sep) == if i == 0 {
            list[0]
        } else {
            join_text(list.take(i), sep) + sep + list[i]
        },
{
    let t = list.take(i + 1);
    assert(t.drop_last() =~= list.take(i));
    if i == 0 {
        assert(t.len() == 1);
    }
}

/// The text of a list of ports.
fn ports_string<DATA>(s: &Schematic<DATA>, ports: &Vec<PortReference>) -> (r: String)
    requires
        forall|i: int| 0 <= i < ports@.len() ==> s.valid_port(#[trigger] ports@[i]),
    ensures
        r@ == ports_text(s, ports@),
{
    let ghost items = ports@.map_values(|p: PortReference| port_text(s, p));
    let mut out = String::new();
    let mut i: usize = 0;
    while i < ports.len()
        invariant
            i <= ports@.len(),
            items == ports@.map_values(|p: PortReference| port_text(s, p)),
            forall|j: int| 0 <= j < ports@.len() ==> s.valid_port(#[trigger] ports@[j]),
            out@ == join_text(items.take(i as int), ", "@),
        decreases ports@.len() - i,
    {
        proof {
            lemma_join_step(items, ", "@, i as int);
        }
        if i > 0 {
            out.append(", ");
        }
        push_port_text(&mut out, s, ports[i]);
        i = i + 1;
    }
    assert(items.take(ports@.len() as int) =~= items);
    out
}

/// The text of a list of connections.
fn connections_string<DATA>(s: &Schematic<DATA>, connections: &Vec<ConnectionIndex>) -> (r: String)
    requires
        s.wf(),
        forall|i: int| 0 <= i < connections@.len() ==> #[trigger] connections@[i] < s.connections@.len(),
    ensures
        r@ == connections_text(s, connections@),
{
    let ghost items = connections@.map_values(|c: ConnectionIndex| connection_text(s, c));
    let mut out = String::new();
    let mut i: usize = 0;
    while i < connections.len()
        invariant
            i <= connections@.len(),
            s.wf(),
            items == connections@.map_values(|c: ConnectionIndex| connection_text(s, c)),
            forall|j: int| 0 <= j < connections@.len() ==> #[trigger] connections@[j] < s.connections@.len(),
            out@ == join_text(items.take(i as int), ", "@),
        decreases connections@.len() - i,
    {
        proof {
            lemma_join_step(items, ", "@, i as int);
        }
        if i > 0 {
            out.append(", ");
        }
        push_connection_text(&mut out, s, connections[i]);
        i = i + 1;
    }
    assert(items.take(connections@.len() as int) =~= items);
    out
}

impl<'graph, DATA> SchematicHop<'graph, DATA> where DATA: Clone {
    /// The hop as text (see [`hop_text`]): `Node:`, `Port:`, `Ports:`,
    /// `Connections:` or `Connection:` followed by what it stands for.
    pub fn to_string(&self) -> (r: String)
        requires
            self.lies_in(self.graph()),
            (self is Connections || self is Connection) ==> self.graph().wf(),
        ensures
            r@ == hop_text(self.graph(), self@),
    {
        let mut out = String::new();
        match self {
            SchematicHop::Node(v) => {
                out.append("Node:");
                out.append(v.name());
            },
            SchematicHop::Port(v) => {
                out.append("Port:");
                push_port_text(&mut out, v.schematic, v.port);
            },
            SchematicHop::Ports(v) => {
                out.append("Ports:");
                let t = ports_string(v.schematic, &v.ports);
                out.append(t.as_str());
            },
            SchematicHop::Connections(v) => {
                out.append("Connections:");
                let t = connections_string(v.schematic, &v.connections);
                out.append(t.as_str());
            },
            SchematicHop::Connection(v) => {
                out.append("Connection:");
                push_connection_text(&mut out, v.schematic, v.index);
            },
        }
        proof {
            assert(out@ =~= hop_text(self.graph(), self@));
        }
        out
    }
}

} // verus!
