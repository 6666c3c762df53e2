use pipecast::registry::{
    EngineEvent, ObjectType, PipewireRegistry, Props, RegistryClient, RegistryDevice,
    RegistryDeviceNode, RegistryFactory, RegistryLink, RegistryParseError, RegistryPort,
    to_object_type,
};

fn props(pairs: &[(&str, &str)]) -> Props {
    let mut p = Props::new();
    for (k, v) in pairs {
        p.add(k.to_string(), v.to_string());
    }
    p
}

#[test]
fn props_get_returns_first_match() {
    let mut p = Props::new();
    p.add("node.id".to_string(), "7".to_string());
    p.add("node.id".to_string(), "9".to_string());
    assert_eq!(p.get("node.id").map(|s| s.as_str()), Some("7"));
    assert!(p.get("missing.key").is_none());
}

#[test]
fn object_type_round_trip() {
    assert!(matches!(
        to_object_type("PipeWire:Interface:Device"),
        ObjectType::Device
    ));
    assert!(matches!(
        to_object_type("PipeWire:Interface:Node"),
        ObjectType::Node
    ));
    assert!(matches!(
        to_object_type("PipeWire:Interface:Module"),
        ObjectType::Module
    ));
    match to_object_type("Zig:Interface:Strange") {
        ObjectType::Other(s) => assert_eq!(s, "Zig:Interface:Strange"),
        _ => panic!("unknown interface string must map to Other"),
    }
}

#[test]
fn factory_parsing_reports_first_missing_field() {
    let ok = props(&[
        ("module.id", "5"),
        ("factory.name", "link-factory"),
        ("factory.type.name", "PipeWire:Interface:Link"),
        ("factory.type.version", "3"),
    ]);
    let f = RegistryFactory::from_props(&ok).unwrap();
    assert_eq!(f.module_id, 5);
    assert_eq!(f.name, "link-factory");
    assert!(matches!(f.factory_type, ObjectType::Link));
    assert_eq!(f.version, 3);

    let missing = props(&[("factory.name", "link-factory")]);
    assert!(matches!(
        RegistryFactory::from_props(&missing),
        Err(RegistryParseError::MissingModuleId)
    ));
    let bad_version = props(&[
        ("module.id", "5"),
        ("factory.name", "link-factory"),
        ("factory.type.name", "PipeWire:Interface:Link"),
        ("factory.type.version", "three"),
    ]);
    assert!(matches!(
        RegistryFactory::from_props(&bad_version),
        Err(RegistryParseError::MissingFactoryVersion)
    ));
}

#[test]
fn client_parsing_requires_every_field() {
    let ok = props(&[
        ("module.id", "2"),
        ("pipewire.protocol", "protocol-native"),
        ("pipewire.sec.pid", "1000"),
        ("pipewire.sec.uid", "1000"),
        ("pipewire.sec.gid", "1000"),
        ("pipewire.access", "unrestricted"),
        ("application.name", "music-player"),
    ]);
    let c = RegistryClient::from_props(&ok).unwrap();
    assert_eq!(c.module_id, 2);
    assert_eq!(c.protocol, "protocol-native");
    assert_eq!(c.application_name, "music-player");
    assert!(c.nodes.is_empty());

    let missing_access = props(&[
        ("module.id", "2"),
        ("pipewire.protocol", "protocol-native"),
        ("pipewire.sec.pid", "1000"),
        ("pipewire.sec.uid", "1000"),
        ("pipewire.sec.gid", "1000"),
        ("application.name", "music-player"),
    ]);
    assert!(matches!(
        RegistryClient::from_props(&missing_access),
        Err(RegistryParseError::MissingAccess)
    ));
}

#[test]
fn link_parsing_reads_all_four_endpoints() {
    let ok = props(&[
        ("link.input.node", "10"),
        ("link.input.port", "11"),
        ("link.output.node", "20"),
        ("link.output.port", "21"),
    ]);
    let l = RegistryLink::from_props(&ok).unwrap();
    assert_eq!((l.input_node, l.input_port, l.output_node, l.output_port), (10, 11, 20, 21));
    let missing = props(&[("link.input.node", "10")]);
    assert!(matches!(
        RegistryLink::from_props(&missing),
        Err(RegistryParseError::MissingLinkInputPort)
    ));
}

#[test]
fn device_node_needs_a_parent_device() {
    let ok = props(&[("device.id", "4"), ("node.name", "alsa-card")]);
    let n = RegistryDeviceNode::from_props(&ok).unwrap();
    assert_eq!(n.parent_id, 4);
    assert_eq!(n.name.as_deref(), Some("alsa-card"));
    assert!(n.nickname.is_none());
    let missing = props(&[("node.name", "alsa-card")]);
    assert!(matches!(
        RegistryDeviceNode::from_props(&missing),
        Err(RegistryParseError::MissingDeviceId)
    ));
}

fn device_props() -> Props {
    props(&[("device.nick", "Onboard"), ("device.name", "alsa_card.pci")])
}

fn node_props_for_device(device_id: &str) -> Props {
    props(&[("device.id", device_id), ("node.name", "alsa-output")])
}

fn port_props(node_id: &str, port_id: &str, channel: &str, direction: &str) -> Props {
    props(&[
        ("node.id", node_id),
        ("port.id", port_id),
        ("port.name", "playback_FL"),
        ("audio.channel", channel),
        ("port.direction", direction),
        ("port.monitor", "false"),
    ])
}

#[test]
fn registry_attaches_nodes_and_ports() {
    let mut reg = PipewireRegistry::new();
    reg.register_listener(1, &ObjectType::Device, &device_props());
    reg.register_listener(42, &ObjectType::Node, &node_props_for_device("1"));
    let device = reg.store.unmanaged_device_get(1).unwrap();
    assert_eq!(device.nodes, vec![42]);
    reg.register_listener(70, &ObjectType::Port, &port_props("42", "0", "FL", "in"));
    let node = reg.store.unmanaged_device_node_get(42).unwrap();
    assert!(node.in_ports.contains_key(&70));
    assert_eq!(reg.events, vec![EngineEvent::NodeReadinessChanged(42)]);
}

#[test]
fn registry_ignores_unusable_ports() {
    let mut reg = PipewireRegistry::new();
    reg.register_listener(1, &ObjectType::Device, &device_props());
    reg.register_listener(42, &ObjectType::Node, &node_props_for_device("1"));
    // A notify port is ignored entirely.
    reg.register_listener(71, &ObjectType::Port, &port_props("42", "0", "FL", "notify"));
    // A port without a node id is dropped.
    let incomplete = props(&[("port.id", "0"), ("port.name", "x"), ("audio.channel", "FL")]);
    reg.register_listener(72, &ObjectType::Port, &incomplete);
    let node = reg.store.unmanaged_device_node_get(42).unwrap();
    assert_eq!(node.in_ports.len(), 0);
    assert_eq!(node.out_ports.len(), 0);
    assert!(reg.events.is_empty());
}

#[test]
fn registry_node_without_parent_is_dropped() {
    let mut reg = PipewireRegistry::new();
    reg.register_listener(42, &ObjectType::Node, &node_props_for_device("9"));
    assert!(reg.store.unmanaged_device_node_get(42).is_none());
}

#[test]
fn registry_links_notify_both_endpoints() {
    let mut reg = PipewireRegistry::new();
    let link = props(&[
        ("link.input.node", "10"),
        ("link.input.port", "11"),
        ("link.output.node", "20"),
        ("link.output.port", "21"),
    ]);
    reg.register_listener(90, &ObjectType::Link, &link);
    let stored = reg.store.unmanaged_link_get(90).unwrap();
    assert_eq!(stored.input_node, 10);
    assert_eq!(stored.output_node, 20);
    assert_eq!(
        reg.events,
        vec![
            EngineEvent::NodeLinksChanged(10),
            EngineEvent::NodeLinksChanged(20),
        ]
    );
}

#[test]
fn global_remove_clears_node_and_parent_reference() {
    let mut reg = PipewireRegistry::new();
    reg.register_listener(1, &ObjectType::Device, &device_props());
    reg.register_listener(42, &ObjectType::Node, &node_props_for_device("1"));
    reg.register_listener(70, &ObjectType::Port, &port_props("42", "0", "FL", "in"));
    reg.registry_removal_listener(42);
    assert!(reg.store.unmanaged_device_node_get(42).is_none());
    let device = reg.store.unmanaged_device_get(1).unwrap();
    assert!(!device.nodes.contains(&42));
    reg.registry_removal_listener(1);
    assert!(reg.store.unmanaged_device_get(1).is_none());
}

#[test]
fn global_remove_strips_ports_by_id() {
    let mut reg = PipewireRegistry::new();
    reg.register_listener(1, &ObjectType::Device, &device_props());
    reg.register_listener(42, &ObjectType::Node, &node_props_for_device("1"));
    reg.register_listener(70, &ObjectType::Port, &port_props("42", "0", "FL", "in"));
    assert!(reg.store.unmanaged_device_node_get(42).unwrap().in_ports.contains_key(&70));
    reg.registry_removal_listener(70);
    assert!(!reg.store.unmanaged_device_node_get(42).unwrap().in_ports.contains_key(&70));
}

#[test]
fn destroy_global_queues_a_request() {
    let mut reg = PipewireRegistry::new();
    reg.destroy_global(33);
    reg.destroy_global(44);
    assert_eq!(reg.destroy_requests, vec![33, 44]);
}

#[test]
fn device_parsing_keeps_optional_names() {
    let d = RegistryDevice::from_props(&device_props());
    assert_eq!(d.nickname.as_deref(), Some("Onboard"));
    assert!(d.description.is_none());
    assert_eq!(d.name.as_deref(), Some("alsa_card.pci"));
    assert!(d.nodes.is_empty());
}

#[test]
fn port_new_copies_fields() {
    let p = RegistryPort::new(5, "capture_FR", "FR", true);
    assert_eq!(p.global_id, 5);
    assert_eq!(p.name, "capture_FR");
    assert_eq!(p.channel, "FR");
    assert!(p.is_monitor);
}
