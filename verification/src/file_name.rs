//! The name of a single file-system entry.

use vstd::prelude::*;
use crate::semantic_string::{
    SemanticString, SemanticStringAccessor, bytes_equal, copy_bytes,
};

verus! {

/// A file name: up to 255 printable ASCII bytes without a path separator.
/// The two relative directory entries `.` and `..`, and the empty string,
/// are rejected as content.  File names carry no normalization: they are
/// equal exactly when their bytes are equal.
#[derive(Debug, Hash)]
pub struct FileName {
    value: Vec<u8>,
}

impl View for FileName {
    type V = Seq<u8>;

    closed spec fn view(&self) -> Seq<u8> {
        self.value@
    }
}

impl SemanticStringAccessor for FileName {
    open spec fn capacity_spec() -> usize {
        255
    }

    open spec fn spec_is_invalid_character(c: u8) -> bool {
        c < 32 || c > 126 || c == 47u8
    }

    open spec fn spec_is_invalid_content(s: Seq<u8>) -> bool {
        s.len() == 0 || s == seq![46u8] || s == seq![46u8, 46u8]
    }

    open spec fn spec_normalized(s: Seq<u8>) -> Seq<u8> {
        s
    }

    fn new_empty() -> (r: Self) {
        FileName { value: Vec::new() }
    }

    fn as_string(&self) -> (r: &Vec<u8>) {
        &self.value
    }

    fn set_string(&mut self, s: Vec<u8>) {
        self.value = s;
    }

    fn max_len() -> (r: usize) {
        255
    }

    fn is_invalid_character(c: u8) -> (r: bool) {
        c < 32 || c > 126 || c == 47u8
    }

    fn is_invalid_content(s: &[u8]) -> (r: bool) {
        let n = s.len();
        if n == 0 {
            return true;
        }
        if n == 1 {
            if s[0] == 46u8 {
                proof {
                    assert(s@ =~= seq![46u8]);
                }
                return true;
            }
            proof {
                assert(s@[0] != seq![46u8][0]);
            }
            return false;
        }
        if n == 2 {
            if s[0] == 46u8 && s[1] == 46u8 {
                proof {
                    assert(s@ =~= seq![46u8, 46u8]);
                }
                return true;
            }
            proof {
                assert(s@[0] != seq![46u8, 46u8][0] || s@[1] != seq![46u8, 46u8][1]);
            }
            return false;
        }
        false
    }

    proof fn lemma_normalized_idempotent(s: Seq<u8>) {
    }

    proof fn lemma_normalized_wf(s: Seq<u8>) {
    }
}

impl SemanticString for FileName {
    fn normalize(&self) -> (r: Self) {
        FileName { value: copy_bytes(&self.value) }
    }
}

impl Clone for FileName {
    fn clone(&self) -> (r: Self)
        ensures
            r@ == self@,
    {
        FileName { value: copy_bytes(&self.value) }
    }
}

impl PartialEq for FileName {
    fn eq(&self, other: &Self) -> (r: bool) {
        let a = self.normalize();
        let b = other.normalize();
        bytes_equal(a.as_bytes(), b.as_bytes())
    }
}

impl vstd::std_specs::cmp::PartialEqSpecImpl for FileName {
    open spec fn obeys_eq_spec() -> bool {
        true
    }

    open spec fn eq_spec(&self, other: &FileName) -> bool {
        FileName::spec_normalized(self@) == FileName::spec_normalized(other@)
    }
}

impl Eq for FileName {

}

} // verus!
