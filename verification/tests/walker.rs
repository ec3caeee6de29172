use wick::{
    walk, NodeHop, PortDirection, PortReference, Schematic, SchematicHop, SchematicWalker, WalkDirection,
    SCHEMATIC_INPUT, SCHEMATIC_OUTPUT,
};

/// `<input>` feeds node `A`, which feeds `<output>`.
fn chain() -> Schematic<u8> {
    let mut s = Schematic::new("test".to_owned(), 0u8, 0u8);
    s.add_input(0, "in".to_owned());
    let input_out = s.add_output(0, "in".to_owned());
    let a = s.add_node("A".to_owned(), 7);
    let a_x = s.add_input(a, "x".to_owned());
    let a_y = s.add_output(a, "y".to_owned());
    let out_in = s.add_input(1, "out".to_owned());
    s.add_output(1, "out".to_owned());
    assert_eq!(s.connect(input_out, a_x, 1), 0);
    assert_eq!(s.connect(a_y, out_in, 2), 1);
    s
}

fn all_hops(mut w: SchematicWalker<'_, u8>) -> Vec<String> {
    let mut out = Vec::new();
    while let Some(hop) = w.next() {
        out.push(hop.to_string());
        assert!(out.len() < 100, "walk does not end");
    }
    // An ended walk stays ended.
    assert!(w.next().is_none());
    assert!(w.next().is_none());
    out
}

#[test]
fn new_schematic_has_input_and_output_nodes() {
    let s = Schematic::new("s".to_owned(), 1u8, 2u8);
    assert_eq!(s.input, 0);
    assert_eq!(s.output, 1);
    assert_eq!(s.nodes.len(), 2);
    assert_eq!(s.nodes[0].name(), SCHEMATIC_INPUT);
    assert_eq!(s.nodes[1].name(), SCHEMATIC_OUTPUT);
    assert_eq!(s.nodes[0].data, 1);
    assert_eq!(s.nodes[1].data, 2);
    assert!(s.get(2).is_none());
    assert_eq!(s.get(1).unwrap().name(), "<output>");
}

#[test]
fn builder_records_connections_on_both_ports() {
    let s = chain();
    assert_eq!(s.nodes.len(), 3);
    assert_eq!(s.connections.len(), 2);
    let a = s.get(2).unwrap();
    assert_eq!(a.name(), "A");
    assert_eq!(a.index(), 2);
    assert_eq!(a.input_connections(0).unwrap(), &vec![0]);
    assert_eq!(a.output_connections(0).unwrap(), &vec![1]);
    assert!(a.input_connections(1).is_none());
    assert!(a.output_connections(1).is_none());
    assert_eq!(s.connections[0].from, PortReference::new(0, 0, PortDirection::Out));
    assert_eq!(s.connections[0].to, PortReference::new(2, 0, PortDirection::In));
    assert_eq!(s.connections[1].data, 2);
    assert_eq!(a.inputs()[0].detail(), PortReference::new(2, 0, PortDirection::In));
    assert_eq!(a.outputs()[0].name(), "y");
    assert_eq!(a.outputs()[0].connections(), &vec![1]);
}

#[test]
fn port_helpers() {
    let s = chain();
    let y = PortReference::new(2, 0, PortDirection::Out);
    assert_eq!(wick::get_port_name(&s, &y), "y");
    assert_eq!(wick::get_ports_node(&s, &y).name(), "y");
    let c = wick::get_port_connections(&s, &y);
    assert_eq!(c.connections, vec![1]);
    assert_eq!(c.cur_index, 0);
    assert_eq!(c.len(), 1);
    assert!(!c.is_empty());
    let conn = wick::get_connection(&s, 1);
    assert_eq!(conn.from, y);
    assert_eq!(conn.to, PortReference::new(1, 0, PortDirection::In));
    assert_eq!(conn.index, 1);
}

#[test]
fn walk_down_from_input_visits_the_chain() {
    let s = chain();
    let hops = all_hops(SchematicWalker::new_from_input(&s));
    let expected = vec![
        "Ports:<input>.IN.in",
        "Node:<input>",
        "Ports:<input>.OUT.in",
        "Port:<input>.OUT.in",
        "Connections:<input>.OUT.in=>A.IN.x",
        "Connection:<input>.OUT.in=>A.IN.x",
        "Port:A.IN.x",
        "Node:A",
        "Ports:A.OUT.y",
        "Port:A.OUT.y",
        "Connections:A.OUT.y=><output>.IN.out",
        "Connection:A.OUT.y=><output>.IN.out",
        "Port:<output>.IN.out",
        "Node:<output>",
        "Ports:<output>.OUT.out",
        "Port:<output>.OUT.out",
        // The interrupted iterations are resumed, most recent first.
        "Ports:<output>.OUT.out",
        "Connections:A.OUT.y=><output>.IN.out",
        "Ports:A.OUT.y",
        "Connections:<input>.OUT.in=>A.IN.x",
        "Ports:<input>.OUT.in",
    ];
    assert_eq!(hops, expected);
}

#[test]
fn walk_up_from_output_visits_the_chain() {
    let s = chain();
    let hops = all_hops(SchematicWalker::new_from_output(&s));
    let expected = vec![
        "Node:<output>",
        "Ports:<output>.IN.out",
        "Port:<output>.IN.out",
        "Connections:A.OUT.y=><output>.IN.out",
        "Connection:A.OUT.y=><output>.IN.out",
        "Port:A.OUT.y",
        "Node:A",
        "Ports:A.IN.x",
        "Port:A.IN.x",
        "Connections:<input>.OUT.in=>A.IN.x",
        "Connection:<input>.OUT.in=>A.IN.x",
        "Port:<input>.OUT.in",
        "Node:<input>",
        "Ports:<input>.IN.in",
        "Port:<input>.IN.in",
        "Ports:<input>.IN.in",
        "Connections:<input>.OUT.in=>A.IN.x",
        "Ports:A.IN.x",
        "Connections:A.OUT.y=><output>.IN.out",
        "Ports:<output>.IN.out",
    ];
    assert_eq!(hops, expected);
}

#[test]
fn walk_from_port_follows_the_direction() {
    let s = chain();
    let x = PortReference::new(2, 0, PortDirection::In);
    let down = all_hops(SchematicWalker::from_port(&s, x, WalkDirection::Down));
    assert_eq!(down[0], "Port:A.IN.x");
    assert_eq!(down[1], "Node:A");
    assert_eq!(down[2], "Ports:A.OUT.y");
    let up = all_hops(SchematicWalker::from_port(&s, x, WalkDirection::Up));
    assert_eq!(up[0], "Port:A.IN.x");
    assert_eq!(up[1], "Connections:<input>.OUT.in=>A.IN.x");
    assert_eq!(up[2], "Connection:<input>.OUT.in=>A.IN.x");
    assert_eq!(up[3], "Port:<input>.OUT.in");
}

#[test]
fn walk_ends_at_a_port_without_connections() {
    let mut s = Schematic::new("s".to_owned(), (), ());
    let p = s.add_output(0, "lonely".to_owned());
    let hops: Vec<String> = {
        let mut w = SchematicWalker::from_port(&s, p, WalkDirection::Down);
        let mut v = Vec::new();
        while let Some(h) = w.next() {
            v.push(h.to_string());
        }
        v
    };
    assert_eq!(hops, vec!["Port:<input>.OUT.lonely"]);
}

#[test]
fn walk_from_input_without_ports() {
    let s = Schematic::new("s".to_owned(), 0u8, 0u8);
    let hops = all_hops(SchematicWalker::new_from_input(&s));
    assert_eq!(hops, vec!["Ports:"]);
}

#[test]
fn single_walk_steps() {
    let s = chain();
    // A connection leads to its `to` port going down and to its `from` port going up.
    let c = SchematicHop::Connection(wick::ConnectionRef::new(&s, 0));
    let (next, rest) = walk(&s, Some(c), WalkDirection::Down);
    assert_eq!(next.unwrap().to_string(), "Port:A.IN.x");
    assert!(rest.is_none());
    let c = SchematicHop::Connection(wick::ConnectionRef::new(&s, 0));
    let (next, _) = walk(&s, Some(c), WalkDirection::Up);
    assert_eq!(next.unwrap().to_string(), "Port:<input>.OUT.in");
    // A node without ports leads nowhere.
    let mut s2 = Schematic::new("s".to_owned(), 0u8, 0u8);
    let n = s2.add_node("empty".to_owned(), 0);
    let (next, rest) = walk(&s2, Some(SchematicHop::from(NodeHop::new(&s2, n))), WalkDirection::Down);
    assert!(next.is_none() && rest.is_none());
    // Nothing leads nowhere.
    let (next, rest) = walk(&s2, None, WalkDirection::Up);
    assert!(next.is_none() && rest.is_none());
}

#[test]
fn ports_iterate_in_order() {
    let mut s = Schematic::new("s".to_owned(), 0u8, 0u8);
    let n = s.add_node("N".to_owned(), 0);
    s.add_output(n, "a".to_owned());
    s.add_output(n, "b".to_owned());
    let mut ports = NodeHop::new(&s, n).into_outputs();
    assert_eq!(ports.len(), 2);
    assert_eq!(ports.direction, Some(PortDirection::Out));
    assert_eq!(ports.next().unwrap().name(), "a");
    assert_eq!(ports.next().unwrap().name(), "b");
    assert!(ports.next().is_none());
    assert!(ports.next().is_none());
    let inputs = NodeHop::new(&s, n).into_inputs();
    assert!(inputs.is_empty());
    assert_eq!(inputs.direction, None);
    assert_eq!(NodeHop::new(&s, n).name(), "N");
}

#[test]
fn fan_out_visits_every_connection() {
    let mut s = Schematic::new("s".to_owned(), 0u8, 0u8);
    let src = s.add_output(0, "v".to_owned());
    let a = s.add_node("A".to_owned(), 0);
    let b = s.add_node("B".to_owned(), 0);
    let ax = s.add_input(a, "x".to_owned());
    let bx = s.add_input(b, "x".to_owned());
    s.connect(src, ax, 0);
    s.connect(src, bx, 0);
    let hops = all_hops(SchematicWalker::from_port(&s, src, WalkDirection::Down));
    assert!(hops.contains(&"Connection:<input>.OUT.v=>A.IN.x".to_owned()));
    assert!(hops.contains(&"Connection:<input>.OUT.v=>B.IN.x".to_owned()));
    assert!(hops.contains(&"Node:A".to_owned()));
    assert!(hops.contains(&"Node:B".to_owned()));
    assert_eq!(hops[1], "Connections:<input>.OUT.v=>A.IN.x, <input>.OUT.v=>B.IN.x");
}

#[test]
fn walking_back_across_a_connection_returns_to_the_port() {
    let s = chain();
    let y = PortReference::new(2, 0, PortDirection::Out);
    let (next, _) = walk(&s, Some(SchematicHop::Port(wick::Port::new(&s, y))), WalkDirection::Down);
    let mut connections = match next {
        Some(SchematicHop::Connections(c)) => c,
        other => panic!("unexpected {:?}", other.map(|h| h.to_string())),
    };
    let first = connections.next().unwrap();
    assert_eq!(first.connection().to, PortReference::new(1, 0, PortDirection::In));
    let (back, _) = walk(&s, Some(SchematicHop::Connection(first)), WalkDirection::Up);
    match back {
        Some(SchematicHop::Port(p)) => assert_eq!(p.port, y),
        other => panic!("unexpected {:?}", other.map(|h| h.to_string())),
    }
    // The same holds the other way round, from an input port.
    let x = PortReference::new(2, 0, PortDirection::In);
    let (next, _) = walk(&s, Some(SchematicHop::Port(wick::Port::new(&s, x))), WalkDirection::Up);
    let mut connections = match next {
        Some(SchematicHop::Connections(c)) => c,
        other => panic!("unexpected {:?}", other.map(|h| h.to_string())),
    };
    let first = connections.next().unwrap();
    let (back, _) = walk(&s, Some(SchematicHop::Connection(first)), WalkDirection::Down);
    match back {
        Some(SchematicHop::Port(p)) => assert_eq!(p.port, x),
        other => panic!("unexpected {:?}", other.map(|h| h.to_string())),
    }
}

#[test]
fn walk_into_a_cycle_never_ends() {
    // A feeds B and B feeds A back: a walk down from A's output never ends.
    let mut s = Schematic::new("loop".to_owned(), 0u8, 0u8);
    let a = s.add_node("A".to_owned(), 0);
    let b = s.add_node("B".to_owned(), 0);
    let a_in = s.add_input(a, "i".to_owned());
    let a_out = s.add_output(a, "o".to_owned());
    let b_in = s.add_input(b, "i".to_owned());
    let b_out = s.add_output(b, "o".to_owned());
    s.connect(a_out, b_in, 0);
    s.connect(b_out, a_in, 0);
    let mut w = SchematicWalker::from_port(&s, a_out, WalkDirection::Down);
    for _ in 0..1000 {
        assert!(w.next().is_some());
    }
    // Walking down from the output node, which no cycle can be reached from, ends.
    let mut w = SchematicWalker::new_from_output(&s);
    let mut n = 0;
    while w.next().is_some() {
        n += 1;
        assert!(n < 100);
    }
    // Walking up from A does reach the cycle.
    let mut w = SchematicWalker::from_port(&s, a_in, WalkDirection::Up);
    for _ in 0..1000 {
        assert!(w.next().is_some());
    }
}
