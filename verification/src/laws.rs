use vstd::prelude::*;

use crate::hops::{node_port_refs, node_ports_model, HopModel};
use crate::schematic::{ConnectionIndex, PortDirection, PortReference, Schematic};
use crate::walker::{step_spec, walk_spec, WalkDirection};
use crate::link::{circular_namespace, Entity};
use crate::http::response_headers_spec;
use crate::registry::layer_media_type_spec;
use crate::strings::{decimal_text, digit_char};
use crate::text::{connection_text, connections_text, join_text, port_text, ports_text};

verus! {

/// Once a walk has ended (a step yields no hop), every later step yields no
/// hop either and leaves nothing pending.
pub proof fn law_ended_walk_stays_ended<DATA>(
    s: &Schematic<DATA>,
    last: Option<HopModel>,
    queue: Seq<HopModel>,
    direction: WalkDirection,
)
    requires
        step_spec(s, last, queue, direction).0 is None,
    ensures
        step_spec(s, last, queue, direction).1.len() == 0,
        step_spec(s, None, step_spec(s, last, queue, direction).1, direction) == (
            None::<HopModel>,
            Seq::<HopModel>::empty(),
        ),
{
    let q = step_spec(s, last, queue, direction).1;
    assert(q =~= Seq::<HopModel>::empty());
}

/// Walking down from an output port reaches every connection that starts
/// there, and walking up from an input port reaches every connection that
/// ends there.
pub proof fn law_every_connection_is_reached<DATA>(s: &Schematic<DATA>, c: ConnectionIndex)
    requires
        s.wf(),
        c < s.connections@.len(),
    ensures
        ({
            let conn = s.connections@[c as int];
            &&& walk_spec(s, Some(HopModel::Port { port: conn.from }), WalkDirection::Down).0 matches Some(
                HopModel::Connections { connections, cur },
            ) && cur == 0 && connections.contains(c)
            &&& walk_spec(s, Some(HopModel::Port { port: conn.to }), WalkDirection::Up).0 matches Some(
                HopModel::Connections { connections, cur },
            ) && cur == 0 && connections.contains(c)
        }),
{
    let conn = s.connections@[c as int];
    assert(s.port_connections(conn.from).contains(c));
    assert(s.port_connections(conn.to).contains(c));
}

/// A connection leads to the port at its far end: to its `to` port when
/// walking down and to its `from` port when walking up.
pub proof fn law_connection_leads_to_its_ends<DATA>(s: &Schematic<DATA>, c: ConnectionIndex)
    requires
        s.wf(),
        c < s.connections@.len(),
    ensures
        walk_spec(s, Some(HopModel::Connection { connection: c }), WalkDirection::Down) == (
            Some(HopModel::Port { port: s.connections@[c as int].to }),
            None::<HopModel>,
        ),
        walk_spec(s, Some(HopModel::Connection { connection: c }), WalkDirection::Up) == (
            Some(HopModel::Port { port: s.connections@[c as int].from }),
            None::<HopModel>,
        ),
{
}

/// Walking back across a connection undoes walking across it: from port `p`,
/// the walk reaches the connections recorded on `p`, and walking the other
/// way from any of them leads back to `p`.
pub proof fn law_reverse_walk_returns<DATA>(s: &Schematic<DATA>, p: PortReference, k: int)
    requires
        s.wf(),
        s.valid_port(p),
        0 <= k < s.port_connections(p).len(),
    ensures
        ({
            let forward = if p.direction == PortDirection::Out {
                WalkDirection::Down
            } else {
                WalkDirection::Up
            };
            let backward = if p.direction == PortDirection::Out {
                WalkDirection::Up
            } else {
                WalkDirection::Down
            };
            &&& walk_spec(s, Some(HopModel::Port { port: p }), forward).0 == Some(
                HopModel::Connections { connections: s.port_connections(p), cur: 0 },
            )
            &&& walk_spec(
                s,
                Some(HopModel::Connection { connection: s.port_connections(p)[k] }),
                backward,
            ).0 == Some(HopModel::Port { port: p })
        }),
{
    let c = s.port_connections(p)[k];
    assert(c < s.connections@.len());
}

/// A walk down from the input of a schematic (as `new_from_input` starts it)
/// first yields the list of the input node's input ports and, when that list
/// is not empty, then the input node itself; a walk up from the output (as
/// `new_from_output` starts it) first yields the output node.
pub proof fn law_walks_start_at_the_boundary<DATA>(s: &Schematic<DATA>)
    requires
        s.wf(),
    ensures
        ({
            let first = step_spec(
                s,
                None,
                seq![node_ports_model(s, s.input, PortDirection::In)],
                WalkDirection::Down,
            );
            &&& first.0 == Some(node_ports_model(s, s.input, PortDirection::In))
            &&& node_port_refs(s, s.input, PortDirection::In).len() > 0 ==> step_spec(
                s,
                first.0,
                first.1,
                WalkDirection::Down,
            ).0 == Some(HopModel::Node { index: s.input })
        }),
        step_spec(s, None, seq![HopModel::Node { index: s.output }], WalkDirection::Up).0 == Some(
            HopModel::Node { index: s.output },
        ),
{
}

/// A link between two operations is refused exactly when both lie in one
/// namespace, whatever the operations are called, and it is refused with the
/// target's namespace; a link that does not join two operations is never
/// refused.
pub proof fn law_link_refused_within_one_namespace(
    origin_ns: String,
    origin_op: String,
    target_ns: String,
    target_op: String,
    other: Entity,
    any: Entity,
)
    ensures
        origin_ns@ == target_ns@ ==> circular_namespace(
            Entity::Operation(origin_ns, origin_op),
            Entity::Operation(target_ns, target_op),
        ) == Some(target_ns@),
        origin_ns@ != target_ns@ ==> circular_namespace(
            Entity::Operation(origin_ns, origin_op),
            Entity::Operation(target_ns, target_op),
        ) is None,
        !(other is Operation) ==> circular_namespace(other, any) is None && circular_namespace(any, other) is None,
{
}

/// The value of a decimal digit.
pub open spec fn digit_value(c: char) -> nat {
    if c == '1' {
        1
    } else if c == '2' {
        2
    } else if c == '3' {
        3
    } else if c == '4' {
        4
    } else if c == '5' {
        5
    } else if c == '6' {
        6
    } else if c == '7' {
        7
    } else if c == '8' {
        8
    } else if c == '9' {
        9
    } else {
        0
    }
}

pub open spec fn is_digit(c: char) -> bool {
    c == '0' || c == '1' || c == '2' || c == '3' || c == '4' || c == '5' || c == '6' || c == '7' || c == '8'
        || c == '9'
}

/// The number that a text of decimal digits denotes, read from the left.
pub open spec fn decimal_value(t: Seq<char>) -> nat
    decreases t.len(),
{
    if t.len() == 0 {
        0
    } else {
        decimal_value(t.drop_last()) * 10 + digit_value(t.last())
    }
}

/// The decimal text of `n` is made of digits, has no leading zero, and reads
/// back as `n`.
pub proof fn law_decimal_text_reads_back(n: nat)
    ensures
        decimal_value(decimal_text(n)) == n,
        decimal_text(n).len() >= 1,
        forall|i: int| 0 <= i < decimal_text(n).len() ==> is_digit(#[trigger] decimal_text(n)[i]),
        decimal_text(n)[0] == '0' ==> n == 0,
    decreases n,
{
    if n < 10 {
        let t = decimal_text(n);
        assert(t.drop_last() =~= Seq::<char>::empty());
        assert(decimal_value(Seq::<char>::empty()) == 0);
        assert(digit_value(digit_char(n)) == n);
        assert(decimal_value(t) == decimal_value(t.drop_last()) * 10 + digit_value(t.last()));
    } else {
        law_decimal_text_reads_back(n / 10);
        let t = decimal_text(n);
        let h = decimal_text(n / 10);
        assert(t == h.push(digit_char(n % 10)));
        assert(t.drop_last() =~= h);
        assert(digit_value(digit_char(n % 10)) == n % 10);
        assert((n / 10) * 10 + n % 10 == n);
        assert(decimal_value(t) == decimal_value(h) * 10 + digit_value(digit_char(n % 10)));
        assert forall|i: int| 0 <= i < t.len() implies is_digit(#[trigger] t[i]) by {
            if i < h.len() {
                assert(t[i] == h[i]);
            }
        }
        assert(t[0] == h[0]);
    }
}

/// The `Content-Length` header of a response carries the length of its
/// body: its one value is a decimal text that reads back as that length.
pub proof fn law_content_length_is_the_body_length(body_len: nat)
    ensures
        response_headers_spec(body_len).len() == 3,
        response_headers_spec(body_len)[2].0 == "Content-Length"@,
        response_headers_spec(body_len)[2].1.len() == 1,
        decimal_value(response_headers_spec(body_len)[2].1[0]) == body_len,
{
    law_decimal_text_reads_back(body_len);
}

/// Only the extensions `wasm`, `tar`, `yaml` and `wafl` have a media type;
/// any other extension is refused with a message that names it.
pub proof fn law_media_type_only_for_known_extensions(extension: Seq<char>)
    ensures
        layer_media_type_spec(extension) is Ok <==> (extension == "wasm"@ || extension == "tar"@ || extension
            == "yaml"@ || extension == "wafl"@),
        !(extension == "wasm"@ || extension == "tar"@ || extension == "yaml"@ || extension == "wafl"@)
            ==> layer_media_type_spec(extension) == Err::<Seq<char>, Seq<char>>(
            "Unknown file type '"@ + extension + "'"@,
        ),
        extension == "yaml"@ ==> layer_media_type_spec(extension) == Ok::<Seq<char>, Seq<char>>(
            "application/vnd.wick.manifest.layer.v1+yaml"@,
        ),
        extension == "wafl"@ ==> layer_media_type_spec(extension) == Ok::<Seq<char>, Seq<char>>(
            "application/vnd.wick.manifest.layer.v1+wafl"@,
        ),
        extension == "tar"@ ==> layer_media_type_spec(extension) == Ok::<Seq<char>, Seq<char>>(
            "application/vnd.oci.image.layer.v1.tar"@,
        ),
        extension == "wasm"@ ==> layer_media_type_spec(extension) == Ok::<Seq<char>, Seq<char>>(
            "application/vnd.wasm.content.layer.v1+wasm"@,
        ),
{
    reveal_strlit("wasm");
    reveal_strlit("tar");
    reveal_strlit("yaml");
    reveal_strlit("wafl");
    assert("wasm"@.len() == 4 && "tar"@.len() == 3 && "yaml"@.len() == 4 && "wafl"@.len() == 4);
    assert("wasm"@[0] == 'w' && "yaml"@[0] == 'y' && "wafl"@[0] == 'w');
    assert("wasm"@[2] == 's' && "wafl"@[2] == 'f');
    assert("tar"@ != "wasm"@ && "yaml"@ != "wasm"@ && "wafl"@ != "wasm"@);
    assert("yaml"@ != "tar"@ && "wafl"@ != "tar"@ && "wafl"@ != "yaml"@);
}

/// The text of a list of ports lists every port, in order, with `, `
/// between two of them: no port is the empty list, and one more port adds
/// `, ` and its text at the end.
pub proof fn law_ports_text_lists_every_port<DATA>(
    s: &Schematic<DATA>,
    ports: Seq<PortReference>,
    p: PortReference,
    q: PortReference,
)
    ensures
        ports_text(s, Seq::<PortReference>::empty()) == Seq::<char>::empty(),
        ports_text(s, ports.push(p)) == if ports.len() == 0 {
            port_text(s, p)
        } else {
            ports_text(s, ports) + ", "@ + port_text(s, p)
        },
        ports_text(s, seq![p, q]) == port_text(s, p) + ", "@ + port_text(s, q),
{
    let f = |x: PortReference| port_text(s, x);
    assert(ports.push(p).map_values(f) =~= ports.map_values(f).push(port_text(s, p)));
    assert(ports.push(p).map_values(f).drop_last() =~= ports.map_values(f));
    assert(Seq::<PortReference>::empty().map_values(f) =~= Seq::<Seq<char>>::empty());
    let two = seq![p, q];
    assert(two.map_values(f).drop_last() =~= seq![port_text(s, p)]);
    assert(two.map_values(f).len() == 2);
    assert(join_text(seq![port_text(s, p)], ", "@) == port_text(s, p));
}

/// The text of a list of connections lists every connection, in order, with
/// `, ` between two of them.
pub proof fn law_connections_text_lists_every_connection<DATA>(
    s: &Schematic<DATA>,
    connections: Seq<ConnectionIndex>,
    c: ConnectionIndex,
    d: ConnectionIndex,
)
    ensures
        connections_text(s, Seq::<ConnectionIndex>::empty()) == Seq::<char>::empty(),
        connections_text(s, connections.push(c)) == if connections.len() == 0 {
            connection_text(s, c)
        } else {
            connections_text(s, connections) + ", "@ + connection_text(s, c)
        },
        connections_text(s, seq![c, d]) == connection_text(s, c) + ", "@ + connection_text(s, d),
{
    let f = |x: ConnectionIndex| connection_text(s, x);
    assert(connections.push(c).map_values(f) =~= connections.map_values(f).push(connection_text(s, c)));
    assert(connections.push(c).map_values(f).drop_last() =~= connections.map_values(f));
    assert(Seq::<ConnectionIndex>::empty().map_values(f) =~= Seq::<Seq<char>>::empty());
    let two = seq![c, d];
    assert(two.map_values(f).drop_last() =~= seq![connection_text(s, c)]);
    assert(two.map_values(f).len() == 2);
    assert(join_text(seq![connection_text(s, c)], ", "@) == connection_text(s, c));
}

} // verus!
