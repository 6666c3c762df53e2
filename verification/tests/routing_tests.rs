use pipecast::ids::LogicalId;
use pipecast::linkman::{FilterPorts, HostCommand, LinkPair};
use pipecast::registry::RegistryPort;
use pipecast::routing::PipewireManager;
use pipecast::shared::{FilterPair, Mix, NodeDef, NodeType, RoutingError};

fn source_id() -> LogicalId {
    LogicalId::new(0xAAA)
}

fn target_id() -> LogicalId {
    LogicalId::new(0xBBB)
}

/// A manager with one virtual source (filters 100/101), one physical
/// target (filter 200, active mix A), and matching FL ports so link
/// calls emit concrete host commands.
fn setup() -> PipewireManager {
    let mut m = PipewireManager::new();
    let s = source_id();
    let t = target_id();
    m.profile.define_node(
        s,
        NodeDef {
            kind: NodeType::VirtualSource,
            name: "microphone".to_string(),
            match_key: None,
            mix: Mix::A,
        },
    );
    m.profile.define_node(
        t,
        NodeDef {
            kind: NodeType::PhysicalTarget,
            name: "speakers".to_string(),
            match_key: Some("alsa.card".to_string()),
            mix: Mix::A,
        },
    );
    m.register_source_filters(s, FilterPair { mix_a: 100, mix_b: 101 });
    m.register_target_filter(t, 200);
    m.link_manager.register_filter_ports(
        100,
        FilterPorts {
            outputs: vec![RegistryPort::new(1, "out_fl", "FL", false)],
            inputs: vec![],
        },
    );
    m.link_manager.register_filter_ports(
        101,
        FilterPorts {
            outputs: vec![RegistryPort::new(3, "out_fl", "FL", false)],
            inputs: vec![],
        },
    );
    m.link_manager.register_filter_ports(
        200,
        FilterPorts {
            outputs: vec![],
            inputs: vec![RegistryPort::new(2, "in_fl", "FL", false)],
        },
    );
    m
}

fn pair(out_filter: u32, in_filter: u32) -> LinkPair {
    LinkPair { out_filter, in_filter }
}

#[test]
fn simple_route_creates_link() {
    let mut m = setup();
    let (s, t) = (source_id(), target_id());
    assert_eq!(m.routing_set_route(s, t, true), Ok(()));
    assert!(m.link_manager.established.contains_key(&pair(100, 200)));
    assert_eq!(m.link_manager.established.len(), 1);
    assert_eq!(m.routing_route_exists(s, t), Ok(true));
    assert_eq!(
        m.link_manager.commands,
        vec![HostCommand::CreateLink {
            output_node: 100,
            output_port: 1,
            input_node: 200,
            input_port: 2,
        }]
    );
}

#[test]
fn kind_mismatch_is_rejected() {
    let mut m = setup();
    let (s, t) = (source_id(), target_id());
    assert_eq!(m.routing_set_route(t, s, true), Err(RoutingError::KindMismatch));
    assert_eq!(m.routing_route_exists(s, t), Ok(false));
    assert_eq!(m.link_manager.established.len(), 0);
}

#[test]
fn kind_mismatch_for_every_bad_pair() {
    let mut m = setup();
    let (s, t) = (source_id(), target_id());
    assert_eq!(m.routing_set_route(t, s, true), Err(RoutingError::KindMismatch));
    assert_eq!(m.routing_set_route(s, s, true), Err(RoutingError::KindMismatch));
    assert_eq!(m.routing_set_route(t, t, true), Err(RoutingError::KindMismatch));
    assert_eq!(m.routing_route_exists(t, s), Err(RoutingError::KindMismatch));
}

#[test]
fn already_set_is_reported_and_changes_nothing() {
    let mut m = setup();
    let (s, t) = (source_id(), target_id());
    assert_eq!(m.routing_set_route(s, t, true), Ok(()));
    let commands_before = m.link_manager.commands.len();
    assert_eq!(m.routing_set_route(s, t, true), Err(RoutingError::AlreadySet));
    assert_eq!(m.routing_route_exists(s, t), Ok(true));
    assert_eq!(m.link_manager.established.len(), 1);
    assert_eq!(m.link_manager.commands.len(), commands_before);
    assert_eq!(m.routing_set_route(s, t, false), Ok(()));
    assert_eq!(m.routing_set_route(s, t, false), Err(RoutingError::AlreadySet));
}

#[test]
fn unknown_ids_give_node_not_found() {
    let mut m = setup();
    let ghost_node = LogicalId::new(0xDEAD);
    assert_eq!(
        m.routing_set_route(ghost_node, target_id(), true),
        Err(RoutingError::NodeNotFound)
    );
    assert_eq!(
        m.routing_set_route(source_id(), ghost_node, true),
        Err(RoutingError::NodeNotFound)
    );
    assert_eq!(
        m.routing_route_exists(ghost_node, target_id()),
        Err(RoutingError::NodeNotFound)
    );
}

#[test]
fn missing_source_map_gives_no_source_map() {
    let mut m = PipewireManager::new();
    let (s, t) = (source_id(), target_id());
    m.profile.define_node(
        s,
        NodeDef {
            kind: NodeType::VirtualSource,
            name: "microphone".to_string(),
            match_key: None,
            mix: Mix::A,
        },
    );
    m.profile.define_node(
        t,
        NodeDef {
            kind: NodeType::PhysicalTarget,
            name: "speakers".to_string(),
            match_key: None,
            mix: Mix::A,
        },
    );
    m.register_target_filter(t, 200);
    assert_eq!(m.routing_set_route(s, t, true), Err(RoutingError::NoSourceMap));
    assert_eq!(m.routing_route_exists(s, t), Ok(false));
}

#[test]
fn muted_pair_enables_route_without_link() {
    let mut m = setup();
    let (s, t) = (source_id(), target_id());
    assert_eq!(m.set_source_mute(s, t, true), Ok(()));
    assert_eq!(m.routing_set_route(s, t, true), Ok(()));
    assert_eq!(m.routing_route_exists(s, t), Ok(true));
    assert_eq!(m.link_manager.established.len(), 0);
    assert!(m.link_manager.commands.is_empty());
}

#[test]
fn unmute_creates_exactly_one_link() {
    let mut m = setup();
    let (s, t) = (source_id(), target_id());
    assert_eq!(m.set_source_mute(s, t, true), Ok(()));
    assert_eq!(m.routing_set_route(s, t, true), Ok(()));
    assert_eq!(m.link_manager.established.len(), 0);
    assert_eq!(m.set_source_mute(s, t, false), Ok(()));
    assert_eq!(m.link_manager.established.len(), 1);
    assert!(m.link_manager.established.contains_key(&pair(100, 200)));
}

#[test]
fn mute_tears_the_link_down() {
    let mut m = setup();
    let (s, t) = (source_id(), target_id());
    assert_eq!(m.routing_set_route(s, t, true), Ok(()));
    assert!(m.link_manager.established.contains_key(&pair(100, 200)));
    assert_eq!(m.set_source_mute(s, t, true), Ok(()));
    assert_eq!(m.link_manager.established.len(), 0);
    assert_eq!(m.set_source_mute(s, t, true), Err(RoutingError::AlreadySet));
}

#[test]
fn active_mix_swap_relinks() {
    let mut m = setup();
    let (s, t) = (source_id(), target_id());
    assert_eq!(m.routing_set_route(s, t, true), Ok(()));
    assert!(m.link_manager.established.contains_key(&pair(100, 200)));
    assert_eq!(m.set_target_mix(t, Mix::B), Ok(()));
    assert!(!m.link_manager.established.contains_key(&pair(100, 200)));
    assert!(m.link_manager.established.contains_key(&pair(101, 200)));
    assert_eq!(m.link_manager.established.len(), 1);
    assert_eq!(m.set_target_mix(s, Mix::B), Err(RoutingError::KindMismatch));
    assert_eq!(
        m.set_target_mix(LogicalId::new(0xDEAD), Mix::B),
        Err(RoutingError::NodeNotFound)
    );
}

#[test]
fn toggle_round_trip_restores_links() {
    let mut m = setup();
    let (s, t) = (source_id(), target_id());
    assert_eq!(m.routing_set_route(s, t, true), Ok(()));
    assert_eq!(m.routing_set_route(s, t, false), Ok(()));
    assert_eq!(m.link_manager.established.len(), 0);
    assert_eq!(m.routing_route_exists(s, t), Ok(false));
}

#[test]
fn route_exists_tracks_last_set_value() {
    let mut m = setup();
    let (s, t) = (source_id(), target_id());
    assert_eq!(m.routing_route_exists(s, t), Ok(false));
    assert_eq!(m.routing_set_route(s, t, true), Ok(()));
    assert_eq!(m.routing_route_exists(s, t), Ok(true));
    assert_eq!(m.routing_set_route(s, t, false), Ok(()));
    assert_eq!(m.routing_route_exists(s, t), Ok(false));
    assert_eq!(m.routing_set_route(s, t, true), Ok(()));
    assert_eq!(m.routing_route_exists(s, t), Ok(true));
}

#[test]
fn routing_load_realizes_profile_and_is_idempotent() {
    let mut m = setup();
    let (s, t) = (source_id(), target_id());
    m.profile.insert_route(s, t);
    assert_eq!(m.routing_load(), Ok(()));
    assert!(m.link_manager.established.contains_key(&pair(100, 200)));
    assert_eq!(m.link_manager.established.len(), 1);
    let commands_after_first = m.link_manager.commands.len();
    assert_eq!(m.routing_load(), Ok(()));
    assert_eq!(m.link_manager.established.len(), 1);
    assert!(m.link_manager.established.contains_key(&pair(100, 200)));
    assert_eq!(m.link_manager.commands.len(), commands_after_first);
}

#[test]
fn routing_load_skips_muted_pairs() {
    let mut m = setup();
    let (s, t) = (source_id(), target_id());
    m.profile.insert_route(s, t);
    m.profile.set_muted(s, t, true);
    assert_eq!(m.routing_load(), Ok(()));
    assert_eq!(m.link_manager.established.len(), 0);
}

#[test]
fn routing_load_fails_on_missing_target_filter() {
    let mut m = setup();
    let s = source_id();
    let orphan = LogicalId::new(0xCCC);
    m.profile.define_node(
        orphan,
        NodeDef {
            kind: NodeType::VirtualTarget,
            name: "void".to_string(),
            match_key: None,
            mix: Mix::A,
        },
    );
    m.profile.insert_route(s, orphan);
    assert_eq!(m.routing_load(), Err(RoutingError::NodeNotFound));
    assert_eq!(m.routing_route_exists(s, orphan), Ok(true));
}

#[test]
fn get_target_mix_reads_the_profile() {
    let mut m = setup();
    let (s, t) = (source_id(), target_id());
    assert_eq!(m.get_target_mix(&t), Ok(Mix::A));
    assert_eq!(m.get_target_mix(&s), Err(RoutingError::KindMismatch));
    assert_eq!(
        m.get_target_mix(&LogicalId::new(0xDEAD)),
        Err(RoutingError::NodeNotFound)
    );
    assert_eq!(m.set_target_mix(t, Mix::B), Ok(()));
    assert_eq!(m.get_target_mix(&t), Ok(Mix::B));
}

#[test]
fn toggling_one_pair_leaves_others_alone() {
    let mut m = setup();
    let (s, t) = (source_id(), target_id());
    let s2 = LogicalId::new(0xAAB);
    m.profile.define_node(
        s2,
        NodeDef {
            kind: NodeType::PhysicalSource,
            name: "line-in".to_string(),
            match_key: Some("alsa.line".to_string()),
            mix: Mix::A,
        },
    );
    m.register_source_filters(s2, FilterPair { mix_a: 110, mix_b: 111 });
    assert_eq!(m.routing_set_route(s, t, true), Ok(()));
    assert_eq!(m.routing_set_route(s2, t, true), Ok(()));
    assert_eq!(m.routing_route_exists(s, t), Ok(true));
    assert_eq!(m.routing_route_exists(s2, t), Ok(true));
    assert_eq!(m.routing_set_route(s2, t, false), Ok(()));
    assert_eq!(m.routing_route_exists(s, t), Ok(true));
    assert_eq!(m.routing_route_exists(s2, t), Ok(false));
    assert!(m.link_manager.established.contains_key(&pair(100, 200)));
    assert!(!m.link_manager.established.contains_key(&pair(110, 200)));
}

#[test]
fn redefining_a_node_overwrites_its_record() {
    let mut m = setup();
    let t = target_id();
    m.profile.define_node(
        t,
        NodeDef {
            kind: NodeType::VirtualTarget,
            name: "headphones".to_string(),
            match_key: None,
            mix: Mix::B,
        },
    );
    assert_eq!(m.get_node_type(t), Some(NodeType::VirtualTarget));
    assert_eq!(m.get_target_mix(&t), Ok(Mix::B));
    assert!(m.get_physical_target(t).is_none());
    assert_eq!(m.get_virtual_target(t).unwrap().name, "headphones");
}

#[test]
fn node_accessors_respect_kinds() {
    let m = setup();
    let (s, t) = (source_id(), target_id());
    assert_eq!(m.get_node_type(s), Some(NodeType::VirtualSource));
    assert_eq!(m.get_node_type(t), Some(NodeType::PhysicalTarget));
    assert_eq!(m.get_node_type(LogicalId::new(1)), None);
    assert!(m.get_virtual_source(s).is_some());
    assert!(m.get_physical_source(s).is_none());
    assert!(m.get_physical_target(t).is_some());
    assert!(m.get_virtual_target(t).is_none());
    assert_eq!(m.get_physical_target(t).unwrap().mix, Mix::A);
    assert_eq!(m.get_target_filter_node(t), Ok(200));
    assert_eq!(
        m.get_target_filter_node(s),
        Err(RoutingError::NodeNotFound)
    );
    assert!(!m.is_source_muted_to_some(s, t));
}
