use iox_core::config::Config;
use iox_core::file_name::FileName;
use iox_core::local_registry::{LocalNodeRegistry, NodeStateCollector};
use iox_core::node_name::NodeName;
use iox_core::node_registry::{list, NodeRegistry};
use iox_core::node_state::{NodeDetails, NodeListFailure, NodeState, ProbeResult};
use iox_core::path_name::PathName;
use iox_core::semantic_string::SemanticString;

fn domain() -> Config {
    Config::new(
        PathName::new(b"/tmp/shm-root").unwrap(),
        PathName::new(b"/tmp/shm-root/nodes").unwrap(),
        FileName::new(b"iox").unwrap(),
    )
}

fn details(name: &[u8]) -> NodeDetails {
    NodeDetails::new(NodeName::new(name).unwrap(), domain())
}

fn id(bytes: &[u8]) -> FileName {
    FileName::new(bytes).unwrap()
}

#[test]
fn list_classifies_alive_dead_and_inaccessible() {
    let mut registry = LocalNodeRegistry::new();
    registry.register(
        id(b"node_1"),
        ProbeResult {
            resource_exists: true,
            locked_by_live_process: true,
            details_readable: true,
            details: Some(details(b"first")),
        },
    );
    registry.register(
        id(b"node_2"),
        ProbeResult {
            resource_exists: true,
            locked_by_live_process: false,
            details_readable: true,
            details: Some(details(b"second")),
        },
    );
    registry.register(
        id(b"node_3"),
        ProbeResult {
            resource_exists: true,
            locked_by_live_process: false,
            details_readable: false,
            details: None,
        },
    );

    let mut visitor = NodeStateCollector::new(16);
    let result = list(&domain(), &mut registry, &mut visitor);
    assert!(result.is_ok());

    let states = visitor.states();
    assert_eq!(states.len(), 3);
    let mut alive = 0;
    let mut dead = 0;
    let mut inaccessible = 0;
    let mut undefined = 0;
    for state in states.iter() {
        match state {
            NodeState::Alive { id, details } => {
                alive += 1;
                assert_eq!(id.as_bytes(), b"node_1");
                assert_eq!(
                    details.as_ref().unwrap().name.as_bytes(),
                    b"first"
                );
            }
            NodeState::Dead { id, details } => {
                dead += 1;
                assert_eq!(id.as_bytes(), b"node_2");
                assert_eq!(
                    details.as_ref().unwrap().name.as_bytes(),
                    b"second"
                );
            }
            NodeState::Inaccessible { id } => {
                inaccessible += 1;
                assert_eq!(id.as_bytes(), b"node_3");
            }
            NodeState::Undefined { .. } => {
                undefined += 1;
            }
        }
    }
    assert_eq!(alive, 1);
    assert_eq!(dead, 1);
    assert_eq!(inaccessible, 1);
    assert_eq!(undefined, 0);
}

#[test]
fn list_stops_after_the_first_stop_answer() {
    let mut registry = LocalNodeRegistry::new();
    for name in [&b"node_a"[..], b"node_b", b"node_c"] {
        registry.register(
            id(name),
            ProbeResult {
                resource_exists: true,
                locked_by_live_process: true,
                details_readable: true,
                details: None,
            },
        );
    }

    let mut visitor = NodeStateCollector::new(1);
    let result = list(&domain(), &mut registry, &mut visitor);
    assert!(result.is_ok());
    assert_eq!(visitor.states().len(), 1);
}

#[test]
fn list_reports_an_unreadable_directory_without_visiting() {
    let mut registry = LocalNodeRegistry::new();
    registry.register(
        id(b"node_1"),
        ProbeResult {
            resource_exists: true,
            locked_by_live_process: true,
            details_readable: true,
            details: None,
        },
    );
    registry.deny(NodeListFailure::InsufficientPermissions);

    let mut visitor = NodeStateCollector::new(16);
    let result = list(&domain(), &mut registry, &mut visitor);
    assert_eq!(result.unwrap_err(), NodeListFailure::InsufficientPermissions);
    assert_eq!(visitor.states().len(), 0);
}

#[test]
fn list_propagates_an_interrupt() {
    let mut registry = LocalNodeRegistry::new();
    registry.deny(NodeListFailure::Interrupt);
    let mut visitor = NodeStateCollector::new(16);
    assert_eq!(
        list(&domain(), &mut registry, &mut visitor).unwrap_err(),
        NodeListFailure::Interrupt
    );
    assert_eq!(visitor.states().len(), 0);
}

#[test]
fn vanished_resources_degrade_to_undefined() {
    let mut registry = LocalNodeRegistry::new();
    registry.register(
        id(b"ghost"),
        ProbeResult {
            resource_exists: false,
            locked_by_live_process: false,
            details_readable: false,
            details: None,
        },
    );

    let mut visitor = NodeStateCollector::new(16);
    assert!(list(&domain(), &mut registry, &mut visitor).is_ok());
    let states = visitor.states();
    assert_eq!(states.len(), 1);
    match &states[0] {
        NodeState::Undefined { id } => assert_eq!(id.as_bytes(), b"ghost"),
        _ => panic!("a vanished resource must classify as undefined"),
    }
}

#[test]
fn alive_without_details_resource_keeps_none() {
    let mut registry = LocalNodeRegistry::new();
    registry.register(
        id(b"bare"),
        ProbeResult {
            resource_exists: true,
            locked_by_live_process: true,
            details_readable: true,
            details: None,
        },
    );
    let mut visitor = NodeStateCollector::new(16);
    assert!(list(&domain(), &mut registry, &mut visitor).is_ok());
    match &visitor.states()[0] {
        NodeState::Alive { details, .. } => assert!(details.is_none()),
        _ => panic!("a locked liveness resource must classify as alive"),
    }
}

#[test]
fn incoherent_catalog_details_are_withheld() {
    // A report whose details could not be read never hands details out,
    // whatever was registered.
    let mut registry = LocalNodeRegistry::new();
    registry.register(
        id(b"torn"),
        ProbeResult {
            resource_exists: true,
            locked_by_live_process: true,
            details_readable: false,
            details: Some(details(b"stale")),
        },
    );
    let mut visitor = NodeStateCollector::new(16);
    assert!(list(&domain(), &mut registry, &mut visitor).is_ok());
    match &visitor.states()[0] {
        NodeState::Inaccessible { id } => assert_eq!(id.as_bytes(), b"torn"),
        _ => panic!("an unreadable resource must classify as inaccessible"),
    }
}

#[test]
fn probing_an_unknown_identifier_reports_no_resource() {
    let mut registry = LocalNodeRegistry::new();
    registry.register(
        id(b"known"),
        ProbeResult {
            resource_exists: true,
            locked_by_live_process: true,
            details_readable: true,
            details: None,
        },
    );
    let report = registry.probe(&id(b"unknown"));
    assert!(!report.resource_exists);
    assert!(!report.locked_by_live_process);
    assert!(!report.details_readable);
    assert!(report.details.is_none());

    let report = registry.probe(&id(b"known"));
    assert!(report.resource_exists);
    assert!(report.locked_by_live_process);
}

#[test]
fn an_empty_directory_lists_successfully() {
    let mut registry = LocalNodeRegistry::new();
    let mut visitor = NodeStateCollector::new(16);
    assert!(list(&domain(), &mut registry, &mut visitor).is_ok());
    assert_eq!(visitor.states().len(), 0);
}
