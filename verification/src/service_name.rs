//! The name of a communication channel.

use vstd::prelude::*;
use crate::semantic_string::{
    SemanticString, SemanticStringAccessor, bytes_equal, copy_bytes,
};

verus! {

/// The name of a service: up to 255 printable ASCII bytes, never empty, with
/// no normalization.  Two service names are equal exactly when their bytes
/// are equal.
#[derive(Debug, Hash)]
pub struct ServiceName {
    value: Vec<u8>,
}

impl View for ServiceName {
    type V = Seq<u8>;

    closed spec fn view(&self) -> Seq<u8> {
        self.value@
    }
}

impl SemanticStringAccessor for ServiceName {
    open spec fn capacity_spec() -> usize {
        255
    }

    open spec fn spec_is_invalid_character(c: u8) -> bool {
        c < 32 || c > 126
    }

    open spec fn spec_is_invalid_content(s: Seq<u8>) -> bool {
        s.len() == 0
    }

    open spec fn spec_normalized(s: Seq<u8>) -> Seq<u8> {
        s
    }

    fn new_empty() -> (r: Self) {
        ServiceName { value: Vec::new() }
    }

    fn as_string(&self) -> (r: &Vec<u8>) {
        &self.value
    }

    fn set_string(&mut self, s: Vec<u8>) {
        self.value = s;
    }

    fn max_len() -> (r: usize) {
        255
    }

    fn is_invalid_character(c: u8) -> (r: bool) {
        c < 32 || c > 126
    }

    fn is_invalid_content(s: &[u8]) -> (r: bool) {
        s.len() == 0
    }

    proof fn lemma_normalized_idempotent(s: Seq<u8>) {
    }

    proof fn lemma_normalized_wf(s: Seq<u8>) {
    }
}

impl SemanticString for ServiceName {
    fn normalize(&self) -> (r: Self) {
        ServiceName { value: copy_bytes(&self.value) }
    }
}

impl Clone for ServiceName {
    fn clone(&self) -> (r: Self)
        ensures
            r@ == self@,
    {
        ServiceName { value: copy_bytes(&self.value) }
    }
}

impl PartialEq for ServiceName {
    fn eq(&self, other: &Self) -> (r: bool) {
        let a = self.normalize();
        let b = other.normalize();
        bytes_equal(a.as_bytes(), b.as_bytes())
    }
}

impl vstd::std_specs::cmp::PartialEqSpecImpl for ServiceName {
    open spec fn obeys_eq_spec() -> bool {
        true
    }

    open spec fn eq_spec(&self, other: &ServiceName) -> bool {
        ServiceName::spec_normalized(self@) == ServiceName::spec_normalized(other@)
    }
}

impl Eq for ServiceName {

}

} // verus!
