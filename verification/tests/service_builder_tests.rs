use iox_core::config::Config;
use iox_core::file_name::FileName;
use iox_core::path_name::PathName;
use iox_core::port_factory::{PortFactory, ServiceProperties};
use iox_core::semantic_string::SemanticString;
use iox_core::service_builder::{
    ServiceBuilder, ServiceType, TypeDetail, TypeVariant, DEFAULT_EVENT_ID_MAX_VALUE,
    DEFAULT_MAX_LISTENERS, DEFAULT_MAX_NOTIFIERS, DEFAULT_MAX_PUBLISHERS, DEFAULT_MAX_SUBSCRIBERS,
};
use iox_core::service_name::ServiceName;

fn domain() -> Config {
    Config::new(
        PathName::new(b"/tmp/shm-root").unwrap(),
        PathName::new(b"/tmp/shm-root/nodes").unwrap(),
        FileName::new(b"iox").unwrap(),
    )
}

fn generic(name: &[u8], service_type: ServiceType) -> ServiceBuilder {
    ServiceBuilder::new(ServiceName::new(name).unwrap(), service_type, domain())
}

#[test]
fn specializing_to_event_consumes_the_generic_builder() {
    let builder = generic(b"events", ServiceType::Ipc);
    // The generic builder moves into the specialization: after this call it
    // no longer exists, so a second specialization of it cannot even be
    // written.  Only the event builder remains.
    let event = builder.event();
    assert_eq!(event.name().as_bytes(), b"events");
    assert_eq!(event.service_type(), ServiceType::Ipc);
}

#[test]
fn event_specialization_starts_at_the_defaults() {
    let event = generic(b"events", ServiceType::Local).event();
    assert_eq!(event.service_type(), ServiceType::Local);
    let event = event
        .max_notifiers(DEFAULT_MAX_NOTIFIERS + 1)
        .max_listeners(DEFAULT_MAX_LISTENERS + 2)
        .event_id_max_value(DEFAULT_EVENT_ID_MAX_VALUE - 1);
    assert_eq!(event.name().as_bytes(), b"events");
}

#[test]
fn specializing_to_publish_subscribe_carries_the_payload_descriptor() {
    let payload = TypeDetail::new(TypeVariant::FixedSize, b"u64".to_vec(), 8, 8);
    let pub_sub = generic(b"samples", ServiceType::Ipc).publish_subscribe(payload);
    assert_eq!(pub_sub.name().as_bytes(), b"samples");
    assert_eq!(pub_sub.service_type(), ServiceType::Ipc);
    assert_eq!(pub_sub.payload_type().name, b"u64");
    assert_eq!(pub_sub.payload_type().size, 8);
    assert_eq!(pub_sub.payload_type().alignment, 8);
    assert_eq!(pub_sub.payload_type().variant, TypeVariant::FixedSize);
}

#[test]
fn publish_subscribe_settings_replace_the_defaults() {
    let payload = TypeDetail::new(TypeVariant::Dynamic, b"bytes".to_vec(), 0, 1);
    let header = TypeDetail::new(TypeVariant::FixedSize, b"Header".to_vec(), 16, 8);
    let pub_sub = generic(b"samples", ServiceType::Local)
        .publish_subscribe(payload)
        .user_header(header)
        .max_publishers(DEFAULT_MAX_PUBLISHERS + 3)
        .max_subscribers(DEFAULT_MAX_SUBSCRIBERS + 4)
        .history_size(7)
        .subscriber_max_buffer_size(9)
        .enable_safe_overflow(false);
    assert_eq!(pub_sub.name().as_bytes(), b"samples");
    assert_eq!(pub_sub.service_type(), ServiceType::Local);
}

#[test]
fn the_unit_header_descriptor_is_empty() {
    let unit = TypeDetail::unit();
    assert_eq!(unit.name, b"()");
    assert_eq!(unit.size, 0);
    assert_eq!(unit.alignment, 1);
    assert_eq!(unit.variant, TypeVariant::FixedSize);
}

#[test]
fn the_generic_builder_reports_its_configuration() {
    let builder = generic(b"svc", ServiceType::Ipc);
    assert_eq!(builder.name().as_bytes(), b"svc");
    assert_eq!(builder.service_type(), ServiceType::Ipc);
    assert_eq!(builder.config().root_path().as_bytes(), b"/tmp/shm-root");
    assert_eq!(builder.config().node_dir().as_bytes(), b"/tmp/shm-root/nodes");
    assert_eq!(builder.config().prefix().as_bytes(), b"iox");
}

#[test]
fn service_properties_keep_definition_order() {
    let mut props = ServiceProperties::new();
    assert_eq!(props.len(), 0);
    props.define(b"dds_service_mapping".to_vec(), b"my_funky_service_name".to_vec());
    props.define(b"tcp_serialization_format".to_vec(), b"cdr".to_vec());
    assert_eq!(props.len(), 2);
    assert_eq!(props.at(0).key, b"dds_service_mapping");
    assert_eq!(props.at(1).value, b"cdr");
}

#[test]
fn service_properties_lookup_finds_the_first_match() {
    let mut props = ServiceProperties::new();
    props.define(b"camera_resolution".to_vec(), b"1920x1080".to_vec());
    props.define(b"camera_resolution".to_vec(), b"640x480".to_vec());
    assert_eq!(props.get(b"camera_resolution").unwrap(), b"1920x1080");
    assert!(props.get(b"someip_service_mapping").is_none());
}

struct FixedFactory {
    name: ServiceName,
    uuid: String,
    properties: ServiceProperties,
    static_config: u32,
    dynamic_config: u32,
}

impl PortFactory for FixedFactory {
    type StaticConfig = u32;
    type DynamicConfig = u32;

    fn name(&self) -> &ServiceName {
        &self.name
    }

    fn uuid(&self) -> &str {
        &self.uuid
    }

    fn properties(&self) -> &ServiceProperties {
        &self.properties
    }

    fn static_config(&self) -> &u32 {
        &self.static_config
    }

    fn dynamic_config(&self) -> &u32 {
        &self.dynamic_config
    }
}

#[test]
fn a_port_factory_exposes_its_service_identity() {
    let factory = FixedFactory {
        name: ServiceName::new(b"factory-service").unwrap(),
        uuid: String::from("0000-0001"),
        properties: ServiceProperties::new(),
        static_config: 11,
        dynamic_config: 22,
    };
    assert_eq!(factory.name().as_bytes(), b"factory-service");
    assert_eq!(factory.uuid(), "0000-0001");
    assert_eq!(factory.properties().len(), 0);
    assert_eq!(*factory.static_config(), 11);
    assert_eq!(*factory.dynamic_config(), 22);
}
