//! The staged service builder.
//!
//! Construction of a communication endpoint starts from a generic builder
//! that owns the service name, the backend discriminant and the domain
//! configuration.  Specializing it into an event or a publish-subscribe
//! builder consumes the generic value: the transition is irreversible,
//! exactly one specialization can ever be applied to one generic builder,
//! and using the generic value afterwards is impossible by construction.
//! The backend discriminant is carried through specialization unchanged.

use vstd::prelude::*;
use crate::config::{Config, ConfigView};
use crate::service_name::ServiceName;

verus! {

/// How many notifiers an event service admits unless configured otherwise.
pub const DEFAULT_MAX_NOTIFIERS: usize = 16;

/// How many listeners an event service admits unless configured otherwise.
pub const DEFAULT_MAX_LISTENERS: usize = 16;

/// The largest event id an event service carries unless configured
/// otherwise.
pub const DEFAULT_EVENT_ID_MAX_VALUE: usize = 4294967295;

/// How many publishers a publish-subscribe service admits unless
/// configured otherwise.
pub const DEFAULT_MAX_PUBLISHERS: usize = 2;

/// How many subscribers a publish-subscribe service admits unless
/// configured otherwise.
pub const DEFAULT_MAX_SUBSCRIBERS: usize = 8;

/// How many samples of history a publish-subscribe service keeps unless
/// configured otherwise.
pub const DEFAULT_HISTORY_SIZE: usize = 0;

/// How many samples a subscriber can buffer unless configured otherwise.
pub const DEFAULT_SUBSCRIBER_MAX_BUFFER_SIZE: usize = 2;

/// The backend a service lives on: shared memory across processes, or
/// memory local to one process.  The discriminant is fixed when the
/// generic builder is made and carried through specialization unchanged;
/// no cross-backend specialization exists.
#[derive(Clone, Copy, Debug, PartialEq, Eq, Structural)]
pub enum ServiceType {
    /// Inter-process: resources live in shared memory.
    Ipc,
    /// Intra-process: resources live in this process alone.
    Local,
}

/// Whether a payload type's size is fixed at compile time or carried with
/// every sample.
#[derive(Clone, Copy, Debug, PartialEq, Eq, Structural)]
pub enum TypeVariant {
    FixedSize,
    Dynamic,
}

/// The mathematical content of a `TypeDetail`.
pub struct TypeDetailView {
    pub variant: TypeVariant,
    pub name: Seq<u8>,
    pub size: usize,
    pub alignment: usize,
}

/// Describes a payload or user-header type well enough for two processes
/// to agree on it: its variant, its name, its size and its alignment.
#[derive(Debug)]
pub struct TypeDetail {
    pub variant: TypeVariant,
    pub name: Vec<u8>,
    pub size: usize,
    pub alignment: usize,
}

impl View for TypeDetail {
    type V = TypeDetailView;

    open spec fn view(&self) -> TypeDetailView {
        TypeDetailView {
            variant: self.variant,
            name: self.name@,
            size: self.size,
            alignment: self.alignment,
        }
    }
}

impl TypeDetail {
    /// Describes a type from its variant, name, size and alignment.
    pub fn new(variant: TypeVariant, name: Vec<u8>, size: usize, alignment: usize) -> (r:
        TypeDetail)
        ensures
            r@ == (TypeDetailView { variant, name: name@, size, alignment }),
    {
        TypeDetail { variant, name, size, alignment }
    }

    /// The descriptor of the unit type: the header of services whose users
    /// configured none.
    pub fn unit() -> (r: TypeDetail)
        ensures
            r@.variant == TypeVariant::FixedSize,
            r@.name == Seq::<u8>::empty().push(40u8).push(41u8),
            r@.size == 0,
            r@.alignment == 1,
    {
        let mut name: Vec<u8> = Vec::new();
        name.push(40);
        name.push(41);
        TypeDetail { variant: TypeVariant::FixedSize, name: name, size: 0, alignment: 1 }
    }
}

impl Clone for TypeDetail {
    fn clone(&self) -> (r: Self)
        ensures
            r@ == self@,
    {
        TypeDetail {
            variant: self.variant,
            name: crate::semantic_string::copy_bytes(&self.name),
            size: self.size,
            alignment: self.alignment,
        }
    }
}

/// The mathematical content of a generic `ServiceBuilder`.
pub struct ServiceBuilderView {
    pub name: Seq<u8>,
    pub service_type: ServiceType,
    pub config: ConfigView,
}

/// The generic stage of service construction: it owns the validated
/// service name, the backend discriminant and the domain configuration,
/// and nothing else.  It is consumed by exactly one specialization.
#[derive(Debug)]
pub struct ServiceBuilder {
    name: ServiceName,
    service_type: ServiceType,
    config: Config,
}

impl View for ServiceBuilder {
    type V = ServiceBuilderView;

    closed spec fn view(&self) -> ServiceBuilderView {
        ServiceBuilderView {
            name: self.name@,
            service_type: self.service_type,
            config: self.config@,
        }
    }
}

impl ServiceBuilder {
    /// Begins constructing the service `name` on backend `service_type`
    /// within the domain `config`.
    pub fn new(name: ServiceName, service_type: ServiceType, config: Config) -> (r: ServiceBuilder)
        ensures
            r@ == (ServiceBuilderView { name: name@, service_type, config: config@ }),
    {
        ServiceBuilder { name, service_type, config }
    }

    /// The name the service will carry.
    pub fn name(&self) -> (r: &ServiceName)
        ensures
            r@ == self@.name,
    {
        &self.name
    }

    /// The backend the service will live on.
    pub fn service_type(&self) -> (r: ServiceType)
        ensures
            r == self@.service_type,
    {
        self.service_type
    }

    /// The domain the service will be registered in.
    pub fn config(&self) -> (r: &Config)
        ensures
            r@ == self@.config,
    {
        &self.config
    }

    /// Specializes this builder for event (notification) messaging.  The
    /// generic builder is consumed; its name, backend and domain are
    /// carried over unchanged and the pattern-specific settings start at
    /// their defaults.
    pub fn event(self) -> (r: EventServiceBuilder)
        ensures
            r@.base == self@,
            r@.max_notifiers == DEFAULT_MAX_NOTIFIERS,
            r@.max_listeners == DEFAULT_MAX_LISTENERS,
            r@.event_id_max_value == DEFAULT_EVENT_ID_MAX_VALUE,
    {
        EventServiceBuilder {
            base: self,
            max_notifiers: DEFAULT_MAX_NOTIFIERS,
            max_listeners: DEFAULT_MAX_LISTENERS,
            event_id_max_value: DEFAULT_EVENT_ID_MAX_VALUE,
        }
    }

    /// Specializes this builder for publish-subscribe messaging over
    /// payloads described by `payload_type`.  The generic builder is
    /// consumed; its name, backend and domain are carried over unchanged,
    /// the user header starts as the unit type, and the pattern-specific
    /// settings start at their defaults.
    pub fn publish_subscribe(self, payload_type: TypeDetail) -> (r: PublishSubscribeServiceBuilder)
        ensures
            r@.base == self@,
            r@.payload_type == payload_type@,
            r@.user_header_type == TypeDetail::unit_view(),
            r@.max_publishers == DEFAULT_MAX_PUBLISHERS,
            r@.max_subscribers == DEFAULT_MAX_SUBSCRIBERS,
            r@.history_size == DEFAULT_HISTORY_SIZE,
            r@.subscriber_max_buffer_size == DEFAULT_SUBSCRIBER_MAX_BUFFER_SIZE,
            r@.enable_safe_overflow == true,
    {
        PublishSubscribeServiceBuilder {
            base: self,
            payload_type,
            user_header_type: TypeDetail::unit(),
            max_publishers: DEFAULT_MAX_PUBLISHERS,
            max_subscribers: DEFAULT_MAX_SUBSCRIBERS,
            history_size: DEFAULT_HISTORY_SIZE,
            subscriber_max_buffer_size: DEFAULT_SUBSCRIBER_MAX_BUFFER_SIZE,
            enable_safe_overflow: true,
        }
    }
}

impl TypeDetail {
    /// The view `TypeDetail::unit` produces.
    pub open spec fn unit_view() -> TypeDetailView {
        TypeDetailView {
            variant: TypeVariant::FixedSize,
            name: Seq::<u8>::empty().push(40u8).push(41u8),
            size: 0,
            alignment: 1,
        }
    }
}

/// The mathematical content of an `EventServiceBuilder`.
pub struct EventServiceBuilderView {
    pub base: ServiceBuilderView,
    pub max_notifiers: usize,
    pub max_listeners: usize,
    pub event_id_max_value: usize,
}

/// A builder specialized for event messaging.  Only its pattern-specific
/// settings can still change; the name, backend and domain it took over
/// from the generic builder are fixed.
#[derive(Debug)]
pub struct EventServiceBuilder {
    base: ServiceBuilder,
    max_notifiers: usize,
    max_listeners: usize,
    event_id_max_value: usize,
}

impl View for EventServiceBuilder {
    type V = EventServiceBuilderView;

    closed spec fn view(&self) -> EventServiceBuilderView {
        EventServiceBuilderView {
            base: self.base@,
            max_notifiers: self.max_notifiers,
            max_listeners: self.max_listeners,
            event_id_max_value: self.event_id_max_value,
        }
    }
}

impl EventServiceBuilder {
    /// The name the service will carry.
    pub fn name(&self) -> (r: &ServiceName)
        ensures
            r@ == self@.base.name,
    {
        self.base.name()
    }

    /// The backend the service will live on.
    pub fn service_type(&self) -> (r: ServiceType)
        ensures
            r == self@.base.service_type,
    {
        self.base.service_type()
    }

    /// Admits at most `value` notifiers.
    pub fn max_notifiers(self, value: usize) -> (r: Self)
        ensures
            r@ == (EventServiceBuilderView { max_notifiers: value, ..self@ }),
    {
        EventServiceBuilder { max_notifiers: value, ..self }
    }

    /// Admits at most `value` listeners.
    pub fn max_listeners(self, value: usize) -> (r: Self)
        ensures
            r@ == (EventServiceBuilderView { max_listeners: value, ..self@ }),
    {
        EventServiceBuilder { max_listeners: value, ..self }
    }

    /// Carries event ids up to `value`.
    pub fn event_id_max_value(self, value: usize) -> (r: Self)
        ensures
            r@ == (EventServiceBuilderView { event_id_max_value: value, ..self@ }),
    {
        EventServiceBuilder { event_id_max_value: value, ..self }
    }
}

/// The mathematical content of a `PublishSubscribeServiceBuilder`.
pub struct PublishSubscribeServiceBuilderView {
    pub base: ServiceBuilderView,
    pub payload_type: TypeDetailView,
    pub user_header_type: TypeDetailView,
    pub max_publishers: usize,
    pub max_subscribers: usize,
    pub history_size: usize,
    pub subscriber_max_buffer_size: usize,
    pub enable_safe_overflow: bool,
}

/// A builder specialized for publish-subscribe messaging.  Only its
/// pattern-specific settings can still change; the name, backend and
/// domain it took over from the generic builder are fixed.
#[derive(Debug)]
pub struct PublishSubscribeServiceBuilder {
    base: ServiceBuilder,
    payload_type: TypeDetail,
    user_header_type: TypeDetail,
    max_publishers: usize,
    max_subscribers: usize,
    history_size: usize,
    subscriber_max_buffer_size: usize,
    enable_safe_overflow: bool,
}

impl View for PublishSubscribeServiceBuilder {
    type V = PublishSubscribeServiceBuilderView;

    closed spec fn view(&self) -> PublishSubscribeServiceBuilderView {
        PublishSubscribeServiceBuilderView {
            base: self.base@,
            payload_type: self.payload_type@,
            user_header_type: self.user_header_type@,
            max_publishers: self.max_publishers,
            max_subscribers: self.max_subscribers,
            history_size: self.history_size,
            subscriber_max_buffer_size: self.subscriber_max_buffer_size,
            enable_safe_overflow: self.enable_safe_overflow,
        }
    }
}

impl PublishSubscribeServiceBuilder {
    /// The name the service will carry.
    pub fn name(&self) -> (r: &ServiceName)
        ensures
            r@ == self@.base.name,
    {
        self.base.name()
    }

    /// The backend the service will live on.
    pub fn service_type(&self) -> (r: ServiceType)
        ensures
            r == self@.base.service_type,
    {
        self.base.service_type()
    }

    /// The descriptor of the payload type.
    pub fn payload_type(&self) -> (r: &TypeDetail)
        ensures
            r@ == self@.payload_type,
    {
        &self.payload_type
    }

    /// Describes the user header each sample carries.
    pub fn user_header(self, header_type: TypeDetail) -> (r: Self)
        ensures
            r@ == (PublishSubscribeServiceBuilderView { user_header_type: header_type@, ..self@ }),
    {
        PublishSubscribeServiceBuilder { user_header_type: header_type, ..self }
    }

    /// Admits at most `value` publishers.
    pub fn max_publishers(self, value: usize) -> (r: Self)
        ensures
            r@ == (PublishSubscribeServiceBuilderView { max_publishers: value, ..self@ }),
    {
        PublishSubscribeServiceBuilder { max_publishers: value, ..self }
    }

    /// Admits at most `value` subscribers.
    pub fn max_subscribers(self, value: usize) -> (r: Self)
        ensures
            r@ == (PublishSubscribeServiceBuilderView { max_subscribers: value, ..self@ }),
    {
        PublishSubscribeServiceBuilder { max_subscribers: value, ..self }
    }

    /// Keeps `value` delivered samples for late-joining subscribers.
    pub fn history_size(self, value: usize) -> (r: Self)
        ensures
            r@ == (PublishSubscribeServiceBuilderView { history_size: value, ..self@ }),
    {
        PublishSubscribeServiceBuilder { history_size: value, ..self }
    }

    /// Lets each subscriber buffer at most `value` samples.
    pub fn subscriber_max_buffer_size(self, value: usize) -> (r: Self)
        ensures
            r@ == (PublishSubscribeServiceBuilderView {
                subscriber_max_buffer_size: value,
                ..self@
            }),
    {
        PublishSubscribeServiceBuilder { subscriber_max_buffer_size: value, ..self }
    }

    /// Overwrites the oldest sample instead of blocking when a
    /// subscriber's buffer is full.
    pub fn enable_safe_overflow(self, value: bool) -> (r: Self)
        ensures
            r@ == (PublishSubscribeServiceBuilderView { enable_safe_overflow: value, ..self@ }),
    {
        PublishSubscribeServiceBuilder { enable_safe_overflow: value, ..self }
    }
}

} // verus!
