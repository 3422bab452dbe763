//! The name of a location in the file system.

use vstd::prelude::*;
use crate::semantic_string::{SemanticString, SemanticStringAccessor, bytes_equal};
use vstd::std_specs::cmp::PartialEqSpec;

verus! {

/// `s` with every run of consecutive path separators collapsed into a
/// single separator.
pub open spec fn collapsed(s: Seq<u8>) -> Seq<u8>
    decreases s.len(),
{
    if s.len() <= 1 {
        s
    } else if s[0] == 47u8 && s[1] == 47u8 {
        collapsed(s.skip(1))
    } else {
        seq![s[0]] + collapsed(s.skip(1))
    }
}

/// Collapsing keeps the first byte and never empties a non-empty path.
pub proof fn lemma_collapsed_first(s: Seq<u8>)
    requires
        s.len() > 0,
    ensures
        collapsed(s).len() > 0,
        collapsed(s)[0] == s[0],
        collapsed(s).len() <= s.len(),
    decreases s.len(),
{
    if s.len() <= 1 {
    } else if s[0] == 47u8 && s[1] == 47u8 {
        lemma_collapsed_first(s.skip(1));
        assert(s.skip(1)[0] == s[1]);
    } else {
        lemma_collapsed_first(s.skip(1));
    }
}

/// Every byte of `s` is printable ASCII.
pub open spec fn path_chars_ok(s: Seq<u8>) -> bool {
    forall|i: int| 0 <= i < s.len() ==> 32 <= #[trigger] s[i] <= 126
}

/// Collapsing keeps every byte a byte of the uncollapsed path: no
/// invalid character can be introduced.
pub proof fn lemma_collapsed_chars(s: Seq<u8>)
    requires
        path_chars_ok(s),
    ensures
        path_chars_ok(collapsed(s)),
    decreases s.len(),
{
    if s.len() <= 1 {
    } else {
        assert forall|i: int| 0 <= i < s.skip(1).len() implies 32 <= #[trigger] s.skip(1)[i]
            <= 126 by {
            assert(s.skip(1)[i] == s[i + 1]);
        };
        lemma_collapsed_chars(s.skip(1));
        if s[0] == 47u8 && s[1] == 47u8 {
        } else {
            let t = seq![s[0]] + collapsed(s.skip(1));
            assert forall|i: int| 0 <= i < t.len() implies 32 <= #[trigger] t[i] <= 126 by {
                if i == 0 {
                    assert(t[0] == s[0]);
                } else {
                    assert(t[i] == collapsed(s.skip(1))[i - 1]);
                }
            };
        }
    }
}

/// Prepending a byte that does not extend a separator run commutes with
/// collapsing.
proof fn lemma_collapsed_uncons(a: u8, t: Seq<u8>)
    requires
        !(a == 47u8 && t.len() > 0 && t[0] == 47u8),
    ensures
        collapsed(seq![a] + t) == seq![a] + collapsed(t),
{
    let u = seq![a] + t;
    if t.len() == 0 {
        assert(u =~= seq![a]);
        assert(collapsed(u) == u);
        assert(seq![a] + collapsed(t) =~= seq![a]);
    } else {
        assert(u.len() >= 2);
        assert(u[0] == a);
        assert(u[1] == t[0]);
        assert(u.skip(1) =~= t);
        assert(collapsed(u) == seq![a] + collapsed(t));
    }
}

/// Adjacent bytes 46 46 — a relative escape `..` — occur somewhere in `s`.
pub open spec fn has_dotdot(s: Seq<u8>) -> bool {
    exists|i: int| 0 <= i < s.len() - 1 && (#[trigger] s[i]) == 46u8 && s[i + 1] == 46u8
}

/// Collapsing separator runs cannot bring two dots together: every
/// adjacent pair of the collapsed path stood adjacent before collapsing
/// too.
pub proof fn lemma_collapsed_no_dotdot(s: Seq<u8>)
    requires
        !has_dotdot(s),
    ensures
        !has_dotdot(collapsed(s)),
    decreases s.len(),
{
    if s.len() <= 1 {
    } else {
        assert forall|i: int|
            0 <= i < s.skip(1).len() - 1 implies !((#[trigger] s.skip(1)[i]) == 46u8 && s.skip(
            1,
        )[i + 1] == 46u8) by {
            assert(s.skip(1)[i] == s[i + 1]);
            assert(s.skip(1)[i + 1] == s[i + 2]);
            assert(!(s[i + 1] == 46u8 && s[i + 2] == 46u8));
        };
        lemma_collapsed_no_dotdot(s.skip(1));
        if s[0] == 47u8 && s[1] == 47u8 {
        } else {
            let c1 = collapsed(s.skip(1));
            let t = seq![s[0]] + c1;
            assert forall|i: int|
                0 <= i < t.len() - 1 implies !((#[trigger] t[i]) == 46u8 && t[i + 1]
                == 46u8) by {
                if i == 0 {
                    lemma_collapsed_first(s.skip(1));
                    assert(c1[0] == s.skip(1)[0]);
                    assert(t[0] == s[0]);
                    assert(t[1] == c1[0]);
                    assert(!(s[0] == 46u8 && s[1] == 46u8));
                } else {
                    assert(t[i] == c1[i - 1]);
                    assert(t[i + 1] == c1[i]);
                    assert(!(c1[i - 1] == 46u8 && c1[i] == 46u8));
                }
            };
        }
    }
}

/// Collapsing separator runs is idempotent.
pub proof fn lemma_collapsed_idempotent(s: Seq<u8>)
    ensures
        collapsed(collapsed(s)) == collapsed(s),
    decreases s.len(),
{
    if s.len() <= 1 {
    } else if s[0] == 47u8 && s[1] == 47u8 {
        lemma_collapsed_idempotent(s.skip(1));
    } else {
        let t = s.skip(1);
        let c1 = collapsed(t);
        lemma_collapsed_idempotent(t);
        assert(t.len() > 0);
        lemma_collapsed_first(t);
        assert(t[0] == s[1]);
        if s[0] == 47u8 {
            assert(s[1] != 47u8);
            assert(c1[0] != 47u8);
        }
        lemma_collapsed_uncons(s[0], c1);
        assert(collapsed(seq![s[0]] + c1) == seq![s[0]] + c1);
    }
}

/// One step of the forward scan that `PathName::normalize` runs: the byte
/// at `i` is kept exactly when it does not immediately precede another
/// separator.
proof fn lemma_collapsed_step(s: Seq<u8>, i: int)
    requires
        0 <= i < s.len(),
    ensures
        (s[i] == 47u8 && i + 1 < s.len() && s[i + 1] == 47u8) ==> collapsed(s.skip(i))
            == collapsed(s.skip(i + 1)),
        !(s[i] == 47u8 && i + 1 < s.len() && s[i + 1] == 47u8) ==> collapsed(s.skip(i))
            == seq![s[i]] + collapsed(s.skip(i + 1)),
{
    let u = s.skip(i);
    assert(u.len() == s.len() - i);
    assert(u[0] == s[i]);
    assert(u.skip(1) =~= s.skip(i + 1));
    if i + 1 < s.len() {
        assert(u[1] == s[i + 1]);
        if s[i] == 47u8 && s[i + 1] == 47u8 {
            assert(collapsed(u) == collapsed(u.skip(1)));
        } else {
            assert(collapsed(u) == seq![u[0]] + collapsed(u.skip(1)));
        }
    } else {
        assert(u.len() == 1);
        assert(collapsed(u) == u);
        assert(collapsed(s.skip(i + 1)) =~= Seq::<u8>::empty());
        assert(u =~= seq![s[i]] + collapsed(s.skip(i + 1)));
    }
}

/// A path: up to 255 printable ASCII bytes, never empty, and never
/// containing the relative escape `..`, which could lead a registry
/// outside its root.  Consecutive path separators carry the same meaning
/// as a single one, so normalization collapses every separator run; two
/// paths are equal exactly when their collapsed forms are byte-equal.
#[derive(Debug)]
pub struct PathName {
    value: Vec<u8>,
}

impl View for PathName {
    type V = Seq<u8>;

    closed spec fn view(&self) -> Seq<u8> {
        self.value@
    }
}

impl SemanticStringAccessor for PathName {
    open spec fn capacity_spec() -> usize {
        255
    }

    open spec fn spec_is_invalid_character(c: u8) -> bool {
        c < 32 || c > 126
    }

    open spec fn spec_is_invalid_content(s: Seq<u8>) -> bool {
        s.len() == 0 || has_dotdot(s)
    }

    open spec fn spec_normalized(s: Seq<u8>) -> Seq<u8> {
        collapsed(s)
    }

    fn new_empty() -> (r: Self) {
        PathName { value: Vec::new() }
    }

    fn as_string(&self) -> (r: &Vec<u8>) {
        &self.value
    }

    fn set_string(&mut self, s: Vec<u8>) {
        self.value = s;
    }

    fn max_len() -> (r: usize) {
        255
    }

    fn is_invalid_character(c: u8) -> (r: bool) {
        c < 32 || c > 126
    }

    fn is_invalid_content(s: &[u8]) -> (r: bool) {
        if s.len() == 0 {
            return true;
        }
        let mut i: usize = 0;
        while i < s.len() - 1
            invariant
                s@.len() >= 1,
                i <= s@.len(),
                forall|j: int| 0 <= j < i ==> !((#[trigger] s@[j]) == 46u8 && s@[j + 1] == 46u8),
            decreases s@.len() - i,
        {
            if s[i] == 46 && s[i + 1] == 46 {
                assert(s@[i as int] == 46u8 && s@[i + 1] == 46u8);
                return true;
            }
            i += 1;
        }
        false
    }

    proof fn lemma_normalized_idempotent(s: Seq<u8>) {
        lemma_collapsed_idempotent(s);
    }

    proof fn lemma_normalized_wf(s: Seq<u8>) {
        assert(path_chars_ok(s));
        lemma_collapsed_chars(s);
        if s.len() > 0 {
            lemma_collapsed_first(s);
        }
        if !PathName::spec_is_invalid_content(s) {
            lemma_collapsed_no_dotdot(s);
        }
        let t = collapsed(s);
        assert forall|i: int| 0 <= i < t.len() implies !PathName::spec_is_invalid_character(
            t[i],
        ) by {
            assert(32 <= t[i] <= 126);
        };
    }
}

impl SemanticString for PathName {
    fn normalize(&self) -> (r: Self) {
        let s = &self.value;
        let mut out: Vec<u8> = Vec::new();
        let mut i: usize = 0;
        proof {
            assert(s@.skip(0) =~= s@);
            assert(Seq::<u8>::empty() + collapsed(s@) =~= collapsed(s@));
        }
        while i < s.len()
            invariant
                i <= s@.len(),
                collapsed(s@) == out@ + collapsed(s@.skip(i as int)),
            decreases s@.len() - i,
        {
            proof {
                lemma_collapsed_step(s@, i as int);
            }
            let keep = if s[i] == 47u8 && i + 1 < s.len() {
                s[i + 1] != 47u8
            } else {
                true
            };
            if keep {
                proof {
                    assert(out@ + (seq![s@[i as int]] + collapsed(s@.skip(i + 1))) =~= out@.push(
                        s@[i as int],
                    ) + collapsed(s@.skip(i + 1)));
                }
                out.push(s[i]);
            }
            i += 1;
        }
        proof {
            assert(collapsed(s@.skip(s@.len() as int)) =~= Seq::<u8>::empty());
            assert(out@ + Seq::<u8>::empty() =~= out@);
        }
        PathName { value: out }
    }
}

impl Clone for PathName {
    fn clone(&self) -> (r: Self)
        ensures
            r@ == self@,
    {
        PathName { value: crate::semantic_string::copy_bytes(&self.value) }
    }
}

impl PartialEq for PathName {
    fn eq(&self, other: &Self) -> (r: bool) {
        let a = self.normalize();
        let b = other.normalize();
        bytes_equal(a.as_bytes(), b.as_bytes())
    }
}

impl vstd::std_specs::cmp::PartialEqSpecImpl for PathName {
    open spec fn obeys_eq_spec() -> bool {
        true
    }

    open spec fn eq_spec(&self, other: &PathName) -> bool {
        PathName::spec_normalized(self@) == PathName::spec_normalized(other@)
    }
}

impl Eq for PathName {

}

/// What `==` on paths means: equality up to duplicate separators.  Two
/// paths are equal exactly when their collapsed forms coincide.
pub proof fn lemma_path_equality_ignores_duplicate_separators(x: PathName, y: PathName)
    ensures
        x.eq_spec(&y) <==> collapsed(x@) == collapsed(y@),
{
}

} // verus!
