//! The interface every port factory offers, and the properties a service
//! carries.

use vstd::prelude::*;
use crate::service_name::ServiceName;

verus! {

/// One key-value property of a service.
#[derive(Debug)]
pub struct Property {
    pub key: Vec<u8>,
    pub value: Vec<u8>,
}

/// The first value stored under `key`, if any.
pub open spec fn property_lookup(props: Seq<(Seq<u8>, Seq<u8>)>, key: Seq<u8>) -> Option<Seq<u8>>
    decreases props.len(),
{
    if props.len() == 0 {
        None
    } else if props.first().0 == key {
        Some(props.first().1)
    } else {
        property_lookup(props.drop_first(), key)
    }
}

/// The properties a service was created with: key-value pairs that are
/// static for the service's lifetime.
#[derive(Debug)]
pub struct ServiceProperties {
    props: Vec<Property>,
}

impl View for ServiceProperties {
    type V = Seq<(Seq<u8>, Seq<u8>)>;

    closed spec fn view(&self) -> Seq<(Seq<u8>, Seq<u8>)> {
        Seq::new(self.props@.len(), |i: int| (self.props@[i].key@, self.props@[i].value@))
    }
}

impl ServiceProperties {
    /// No properties.
    pub fn new() -> (r: ServiceProperties)
        ensures
            r@ == Seq::<(Seq<u8>, Seq<u8>)>::empty(),
    {
        let r = ServiceProperties { props: Vec::new() };
        proof {
            assert(r@ =~= Seq::<(Seq<u8>, Seq<u8>)>::empty());
        }
        r
    }

    /// Appends the property `key = value`.
    pub fn define(&mut self, key: Vec<u8>, value: Vec<u8>)
        ensures
            final(self)@ == old(self)@.push((key@, value@)),
    {
        let ghost k = key@;
        let ghost v = value@;
        self.props.push(Property { key, value });
        proof {
            assert(self@ =~= old(self)@.push((k, v)));
        }
    }

    /// How many properties are defined.
    pub fn len(&self) -> (r: usize)
        ensures
            r == self@.len(),
    {
        self.props.len()
    }

    /// The property at position `i`, in definition order.
    pub fn at(&self, i: usize) -> (r: &Property)
        requires
            i < self@.len(),
        ensures
            r.key@ == self@[i as int].0,
            r.value@ == self@[i as int].1,
    {
        &self.props[i]
    }

    /// The first value defined under `key`, if any.
    pub fn get(&self, key: &[u8]) -> (r: Option<&Vec<u8>>)
        ensures
            match r {
                Some(v) => property_lookup(self@, key@) == Some(v@),
                None => property_lookup(self@, key@) is None,
            },
    {
        let n = self.props.len();
        let mut i: usize = 0;
        proof {
            assert(self@.skip(0) =~= self@);
        }
        while i < n
            invariant
                i <= n == self.props@.len(),
                property_lookup(self@, key@) == property_lookup(self@.skip(i as int), key@),
            decreases n - i,
        {
            proof {
                assert(self@.skip(i as int).first() == self@[i as int]);
                assert(self@.skip(i as int).drop_first() =~= self@.skip(i + 1));
            }
            if crate::semantic_string::bytes_equal(self.props[i].key.as_slice(), key) {
                return Some(&self.props[i].value);
            }
            i += 1;
        }
        proof {
            assert(self@.skip(n as int) =~= Seq::<(Seq<u8>, Seq<u8>)>::empty());
        }
        None
    }
}

/// What every port factory offers, whatever the messaging pattern behind
/// it: the service's name, its identity, its properties, and its static
/// and dynamic configuration.  The pattern-specific factories implement
/// this interface; creating the ports themselves is their own affair.
pub trait PortFactory {
    type StaticConfig;

    type DynamicConfig;

    /// The name of the service.
    fn name(&self) -> &ServiceName;

    /// The identity of the service instance.
    fn uuid(&self) -> &str;

    /// The properties the service was created with.
    fn properties(&self) -> &ServiceProperties;

    /// The settings that never change during the service's lifetime.
    fn static_config(&self) -> &Self::StaticConfig;

    /// The settings that change as participants come and go.
    fn dynamic_config(&self) -> &Self::DynamicConfig;
}

} // verus!
