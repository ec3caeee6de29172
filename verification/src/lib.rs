//! A verified model of a flow graph ("schematic") and of the walker that
//! traverses it, together with the small decision procedures that surround it:
//! error messages, the check that keeps a link call from looping back into its
//! own component, the choices made when pushing an artifact to a registry, and
//! the computations of a small HTTP component.

mod errors;
mod hops;
mod http;
mod laws;
mod link;
mod registry;
mod schematic;
mod strings;
mod termination;
mod text;
mod walker;

pub use errors::{string_views, Error, Exception, HostError, LinkError, WasmCollectionError};
pub use hops::{
    get_connection, get_port_connections, get_port_name, get_ports_node, hop_model, model_valid,
    node_port_refs, node_ports_model, ConnectionRef, Connections, HopModel, NodeHop, Port, Ports,
    SchematicHop,
};
pub use http::{
    body_needs_reply, header_views, list_remove_count, response_headers, response_headers_spec, reverse_message,
};
pub use laws::{
    decimal_value, digit_value, is_digit, law_connections_text_lists_every_connection,
    law_content_length_is_the_body_length, law_decimal_text_reads_back,
    law_link_refused_within_one_namespace, law_media_type_only_for_known_extensions,
    law_ports_text_lists_every_port, law_connection_leads_to_its_ends, law_ended_walk_stays_ended, law_every_connection_is_reached,
    law_reverse_walk_returns, law_walks_start_at_the_boundary,
};
pub use link::{check_link, circular_namespace, Entity};
pub use registry::{layer_media_type, layer_media_type_spec, registry_auth, RegistryAuth};
pub use schematic::{
    Connection, ConnectionIndex, Node, NodeIndex, NodePort, PortDirection, PortIndex,
    PortReference, Schematic, SCHEMATIC_INPUT, SCHEMATIC_OUTPUT,
};
pub use strings::{decimal_string, decimal_text, digit_char};
pub use termination::{
    ahead, ahead_port, behind, behind_port, connections_level, connections_pend, cycle_pending,
    hop_level, hop_measure, hop_phase, hop_ranked, hop_rest, is_path, law_ranked_nodes_reach_no_cycle,
    law_walk_ends_iff_no_cycle_is_reachable, law_walk_into_cycle_never_ends,
    law_walk_without_cycle_ends, lemma_cycle_step, lemma_cycle_successor, lemma_ranked_step,
    lemma_step_valid, lemma_walk_valid, lex_below, pending_in, pending_reach, pends, port_level,
    port_pends, ports_level, ports_pend, queue_cost, reach_from, reaches_cycle, ranked, state_cost,
    state_ranked, state_valid, step_edge, walk_cost, walk_run,
};
pub use text::{
    connection_text, connections_text, direction_text, hop_text, join_text, port_text, ports_text,
};
pub use walker::{entering, leaving, step_spec, walk, walk_spec, SchematicWalker, WalkDirection};
