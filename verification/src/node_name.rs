//! The name a node presents to the system.

use vstd::prelude::*;
use crate::semantic_string::{
    SemanticString, SemanticStringAccessor, bytes_equal, copy_bytes,
};

verus! {

/// The name of a node: up to 128 printable ASCII bytes, with no content
/// restriction and no normalization.  Two node names are equal exactly when
/// their bytes are equal.
#[derive(Debug, Hash)]
pub struct NodeName {
    value: Vec<u8>,
}

impl View for NodeName {
    type V = Seq<u8>;

    closed spec fn view(&self) -> Seq<u8> {
        self.value@
    }
}

impl SemanticStringAccessor for NodeName {
    open spec fn capacity_spec() -> usize {
        128
    }

    open spec fn spec_is_invalid_character(c: u8) -> bool {
        c < 32 || c > 126
    }

    open spec fn spec_is_invalid_content(s: Seq<u8>) -> bool {
        false
    }

    open spec fn spec_normalized(s: Seq<u8>) -> Seq<u8> {
        s
    }

    fn new_empty() -> (r: Self) {
        NodeName { value: Vec::new() }
    }

    fn as_string(&self) -> (r: &Vec<u8>) {
        &self.value
    }

    fn set_string(&mut self, s: Vec<u8>) {
        self.value = s;
    }

    fn max_len() -> (r: usize) {
        128
    }

    fn is_invalid_character(c: u8) -> (r: bool) {
        c < 32 || c > 126
    }

    fn is_invalid_content(s: &[u8]) -> (r: bool) {
        false
    }

    proof fn lemma_normalized_idempotent(s: Seq<u8>) {
    }

    proof fn lemma_normalized_wf(s: Seq<u8>) {
    }
}

impl SemanticString for NodeName {
    fn normalize(&self) -> (r: Self) {
        NodeName { value: copy_bytes(&self.value) }
    }
}

impl Clone for NodeName {
    fn clone(&self) -> (r: Self)
        ensures
            r@ == self@,
    {
        NodeName { value: copy_bytes(&self.value) }
    }
}

impl PartialEq for NodeName {
    fn eq(&self, other: &Self) -> (r: bool) {
        let a = self.normalize();
        let b = other.normalize();
        bytes_equal(a.as_bytes(), b.as_bytes())
    }
}

impl vstd::std_specs::cmp::PartialEqSpecImpl for NodeName {
    open spec fn obeys_eq_spec() -> bool {
        true
    }

    open spec fn eq_spec(&self, other: &NodeName) -> bool {
        NodeName::spec_normalized(self@) == NodeName::spec_normalized(other@)
    }
}

impl Eq for NodeName {

}

} // verus!
