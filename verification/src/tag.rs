//! A short, case-insensitive label.

use vstd::prelude::*;
use crate::semantic_string::{SemanticString, SemanticStringAccessor, bytes_equal};
use vstd::std_specs::cmp::PartialEqSpec;

verus! {

/// ASCII case folding of one byte.
pub open spec fn lower_byte(c: u8) -> u8 {
    if 65u8 <= c <= 90u8 {
        (c + 32) as u8
    } else {
        c
    }
}

/// ASCII case folding of a byte string.
pub open spec fn lower_seq(s: Seq<u8>) -> Seq<u8> {
    Seq::new(s.len(), |i: int| lower_byte(s[i]))
}

/// A tag: at most 8 printable ASCII bytes, at least one of them not a
/// space, compared without regard to ASCII case.  Normalization folds the
/// tag to lower case; two tags are equal exactly when their folded forms
/// are byte-equal.
#[derive(Debug)]
pub struct Tag {
    value: Vec<u8>,
}

impl View for Tag {
    type V = Seq<u8>;

    closed spec fn view(&self) -> Seq<u8> {
        self.value@
    }
}

impl SemanticStringAccessor for Tag {
    open spec fn capacity_spec() -> usize {
        8
    }

    open spec fn spec_is_invalid_character(c: u8) -> bool {
        c < 32 || c > 126
    }

    open spec fn spec_is_invalid_content(s: Seq<u8>) -> bool {
        forall|i: int| 0 <= i < s.len() ==> s[i] == 32u8
    }

    open spec fn spec_normalized(s: Seq<u8>) -> Seq<u8> {
        lower_seq(s)
    }

    fn new_empty() -> (r: Self) {
        Tag { value: Vec::new() }
    }

    fn as_string(&self) -> (r: &Vec<u8>) {
        &self.value
    }

    fn set_string(&mut self, s: Vec<u8>) {
        self.value = s;
    }

    fn max_len() -> (r: usize) {
        8
    }

    fn is_invalid_character(c: u8) -> (r: bool) {
        c < 32 || c > 126
    }

    fn is_invalid_content(s: &[u8]) -> (r: bool) {
        let mut i: usize = 0;
        while i < s.len()
            invariant
                i <= s@.len(),
                forall|j: int| 0 <= j < i ==> s@[j] == 32u8,
            decreases s@.len() - i,
        {
            if s[i] != 32u8 {
                assert(s@[i as int] != 32u8);
                return false;
            }
            i += 1;
        }
        true
    }

    proof fn lemma_normalized_idempotent(s: Seq<u8>) {
        assert(lower_seq(lower_seq(s)) =~= lower_seq(s));
    }

    proof fn lemma_normalized_wf(s: Seq<u8>) {
        let t = lower_seq(s);
        assert forall|i: int| 0 <= i < t.len() implies !Tag::spec_is_invalid_character(t[i]) by {
            assert(!Tag::spec_is_invalid_character(s[i]));
        };
        if !Tag::spec_is_invalid_content(s) {
            let j = choose|j: int| 0 <= j < s.len() && s[j] != 32u8;
            assert(t[j] == lower_byte(s[j]));
            assert(t[j] != 32u8);
        }
    }
}

impl SemanticString for Tag {
    fn normalize(&self) -> (r: Self) {
        let s = &self.value;
        let mut out: Vec<u8> = Vec::new();
        let mut i: usize = 0;
        while i < s.len()
            invariant
                i <= s@.len(),
                out@.len() == i as int,
                forall|j: int| 0 <= j < i ==> out@[j] == lower_byte(s@[j]),
            decreases s@.len() - i,
        {
            let c = s[i];
            if c >= 65u8 && c <= 90u8 {
                out.push(c + 32);
            } else {
                out.push(c);
            }
            i += 1;
        }
        proof {
            assert(out@ =~= lower_seq(s@));
        }
        Tag { value: out }
    }
}

impl Clone for Tag {
    fn clone(&self) -> (r: Self)
        ensures
            r@ == self@,
    {
        Tag { value: crate::semantic_string::copy_bytes(&self.value) }
    }
}

impl PartialEq for Tag {
    fn eq(&self, other: &Self) -> (r: bool) {
        let a = self.normalize();
        let b = other.normalize();
        bytes_equal(a.as_bytes(), b.as_bytes())
    }
}

impl vstd::std_specs::cmp::PartialEqSpecImpl for Tag {
    open spec fn obeys_eq_spec() -> bool {
        true
    }

    open spec fn eq_spec(&self, other: &Tag) -> bool {
        Tag::spec_normalized(self@) == Tag::spec_normalized(other@)
    }
}

impl Eq for Tag {

}

/// What `==` on tags means: case-insensitive byte equality.  Two tags are
/// equal exactly when their case-folded forms coincide.
pub proof fn lemma_tag_equality_is_case_insensitive(x: Tag, y: Tag)
    ensures
        x.eq_spec(&y) <==> lower_seq(x@) == lower_seq(y@),
{
}

} // verus!
