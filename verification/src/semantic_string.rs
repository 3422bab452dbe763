//! The validated identifier engine.
//!
//! A semantic string is a bounded, character-validated, normalizable byte
//! string used for every name in the system.  A family (node name, service
//! name, file name, path name, ...) fixes the capacity, the character rule,
//! the content rule and the normalization; the engine supplies the shared
//! algorithms.  Every mutating operation validates the prospective content on
//! a scratch copy and commits only when it is valid, so an identifier is
//! never observably left in an invalid state.

use vstd::prelude::*;

verus! {

/// Why an identifier could not be created or modified.
#[derive(Clone, Copy, Debug, PartialEq, Eq, Structural)]
pub enum SemanticStringError {
    /// The supplied bytes contain a character the family does not allow.
    InvalidCharacter,
    /// The result would exceed the family's capacity.
    ExceedsMaximumLength,
    /// The resulting content would violate the family's content rule.
    InvalidName,
}

/// Some byte of `s` is rejected by the family's character rule.
pub open spec fn seq_has_invalid_chars<A: SemanticStringAccessor>(s: Seq<u8>) -> bool {
    exists|i: int| 0 <= i < s.len() && A::spec_is_invalid_character(s[i])
}

/// `s` fits the family's capacity and contains only accepted characters.
pub open spec fn is_wf_chars<A: SemanticStringAccessor>(s: Seq<u8>) -> bool {
    &&& s.len() <= A::capacity_spec()
    &&& !seq_has_invalid_chars::<A>(s)
}

/// `s` is a fully valid name of the family: bounded, with accepted
/// characters and accepted content.
pub open spec fn is_wf_name<A: SemanticStringAccessor>(s: Seq<u8>) -> bool {
    &&& is_wf_chars::<A>(s)
    &&& !A::spec_is_invalid_content(s)
}

/// The result of splicing `b` into `s` at position `idx`.
pub open spec fn inserted(s: Seq<u8>, idx: int, b: Seq<u8>) -> Seq<u8> {
    s.take(idx) + b + s.skip(idx)
}

/// What `SemanticString::new` returns, case by case: each error comes on
/// exactly the inputs that force it, and on all other inputs the identifier
/// is produced with exactly the supplied bytes.
pub open spec fn new_post<A: SemanticStringAccessor>(
    v: Seq<u8>,
    r: Result<A, SemanticStringError>,
) -> bool {
    match r {
        Ok(s) => s@ == v && is_wf_name::<A>(v),
        Err(SemanticStringError::InvalidCharacter) => seq_has_invalid_chars::<A>(v),
        Err(SemanticStringError::ExceedsMaximumLength) => !seq_has_invalid_chars::<A>(v)
            && v.len() > A::capacity_spec(),
        Err(SemanticStringError::InvalidName) => !seq_has_invalid_chars::<A>(v)
            && v.len() <= A::capacity_spec() && A::spec_is_invalid_content(v),
    }
}

/// What `SemanticString::insert_bytes` does, case by case.  `prev` is the
/// value before the call, `cur` the value after it: on every error the value
/// is unchanged.
pub open spec fn insert_bytes_post<A: SemanticStringAccessor>(
    prev: Seq<u8>,
    idx: int,
    b: Seq<u8>,
    cur: Seq<u8>,
    r: Result<(), SemanticStringError>,
) -> bool {
    match r {
        Ok(()) => {
            &&& !seq_has_invalid_chars::<A>(b)
            &&& prev.len() + b.len() <= A::capacity_spec()
            &&& !A::spec_is_invalid_content(inserted(prev, idx, b))
            &&& cur == inserted(prev, idx, b)
        },
        Err(SemanticStringError::InvalidCharacter) => seq_has_invalid_chars::<A>(b)
            && cur == prev,
        Err(SemanticStringError::ExceedsMaximumLength) => !seq_has_invalid_chars::<A>(b)
            && prev.len() + b.len() > A::capacity_spec() && cur == prev,
        Err(SemanticStringError::InvalidName) => !seq_has_invalid_chars::<A>(b)
            && prev.len() + b.len() <= A::capacity_spec()
            && A::spec_is_invalid_content(inserted(prev, idx, b)) && cur == prev,
    }
}

/// Splicing characters that both pass the family's character rule yields a
/// sequence that passes it as well.
pub proof fn lemma_inserted_chars<A: SemanticStringAccessor>(s: Seq<u8>, idx: int, b: Seq<u8>)
    requires
        0 <= idx <= s.len(),
        !seq_has_invalid_chars::<A>(s),
        !seq_has_invalid_chars::<A>(b),
    ensures
        !seq_has_invalid_chars::<A>(inserted(s, idx, b)),
{
    let t = inserted(s, idx, b);
    assert forall|i: int| 0 <= i < t.len() implies !A::spec_is_invalid_character(t[i]) by {
        if i < idx {
            assert(t[i] == s[i]);
            assert(!A::spec_is_invalid_character(s[i]));
        } else if i < idx + b.len() {
            assert(t[i] == b[i - idx]);
            assert(!A::spec_is_invalid_character(b[i - idx]));
        } else {
            assert(t[i] == s[i - b.len()]);
            assert(!A::spec_is_invalid_character(s[i - b.len()]));
        }
    };
}

/// The result of removing `n` bytes of `s` from position `idx` on.
pub open spec fn removed_range(s: Seq<u8>, idx: int, n: int) -> Seq<u8> {
    s.take(idx) + s.skip(idx + n)
}

/// What `SemanticString::remove_range` does: the removal is computed on a
/// scratch copy and committed only when the content rule accepts it.
pub open spec fn remove_range_post<A: SemanticStringAccessor>(
    prev: Seq<u8>,
    idx: int,
    n: int,
    cur: Seq<u8>,
    r: Result<(), SemanticStringError>,
) -> bool {
    match r {
        Ok(()) => !A::spec_is_invalid_content(removed_range(prev, idx, n)) && cur
            == removed_range(prev, idx, n),
        Err(SemanticStringError::InvalidName) => A::spec_is_invalid_content(
            removed_range(prev, idx, n),
        ) && cur == prev,
        Err(_) => false,
    }
}

/// What `SemanticString::pop` does: removing from an empty value is not an
/// error, and a removal the content rule rejects leaves the value unchanged.
pub open spec fn pop_post<A: SemanticStringAccessor>(
    prev: Seq<u8>,
    cur: Seq<u8>,
    r: Result<Option<u8>, SemanticStringError>,
) -> bool {
    match r {
        Ok(None) => prev.len() == 0 && cur == prev,
        Ok(Some(b)) => prev.len() > 0 && b == prev.last() && !A::spec_is_invalid_content(
            prev.drop_last(),
        ) && cur == prev.drop_last(),
        Err(SemanticStringError::InvalidName) => prev.len() > 0 && A::spec_is_invalid_content(
            prev.drop_last(),
        ) && cur == prev,
        Err(_) => false,
    }
}

/// What `SemanticString::truncate` does.  Truncating beyond the current
/// length keeps the value as it is.
pub open spec fn truncate_post<A: SemanticStringAccessor>(
    prev: Seq<u8>,
    new_len: int,
    cur: Seq<u8>,
    r: Result<(), SemanticStringError>,
) -> bool {
    let kept = if new_len < prev.len() {
        prev.take(new_len)
    } else {
        prev
    };
    match r {
        Ok(()) => !A::spec_is_invalid_content(kept) && cur == kept,
        Err(SemanticStringError::InvalidName) => A::spec_is_invalid_content(kept) && cur == prev,
        Err(_) => false,
    }
}

/// `p` stands at the front of `s`.
pub open spec fn is_prefix_of(p: Seq<u8>, s: Seq<u8>) -> bool {
    s.len() >= p.len() && s.take(p.len() as int) == p
}

/// `p` stands at the end of `s`.
pub open spec fn is_suffix_of(p: Seq<u8>, s: Seq<u8>) -> bool {
    s.len() >= p.len() && s.skip(s.len() - p.len()) == p
}

/// What `SemanticString::strip_prefix` does: an absent prefix is reported as
/// `Ok(false)`, not as an error, and leaves the value unchanged.
pub open spec fn strip_prefix_post<A: SemanticStringAccessor>(
    prev: Seq<u8>,
    b: Seq<u8>,
    cur: Seq<u8>,
    r: Result<bool, SemanticStringError>,
) -> bool {
    match r {
        Ok(true) => is_prefix_of(b, prev) && !A::spec_is_invalid_content(prev.skip(b.len() as int))
            && cur == prev.skip(b.len() as int),
        Ok(false) => !is_prefix_of(b, prev) && cur == prev,
        Err(SemanticStringError::InvalidName) => is_prefix_of(b, prev)
            && A::spec_is_invalid_content(prev.skip(b.len() as int)) && cur == prev,
        Err(_) => false,
    }
}

/// What `SemanticString::strip_suffix` does: an absent suffix is reported as
/// `Ok(false)`, not as an error, and leaves the value unchanged.
pub open spec fn strip_suffix_post<A: SemanticStringAccessor>(
    prev: Seq<u8>,
    b: Seq<u8>,
    cur: Seq<u8>,
    r: Result<bool, SemanticStringError>,
) -> bool {
    match r {
        Ok(true) => is_suffix_of(b, prev) && !A::spec_is_invalid_content(
            prev.take(prev.len() - b.len()),
        ) && cur == prev.take(prev.len() - b.len()),
        Ok(false) => !is_suffix_of(b, prev) && cur == prev,
        Err(SemanticStringError::InvalidName) => is_suffix_of(b, prev)
            && A::spec_is_invalid_content(prev.take(prev.len() - b.len())) && cur == prev,
        Err(_) => false,
    }
}

/// The bytes of `s` kept by the boolean mask `keep`, in order.
pub open spec fn mask_keep(s: Seq<u8>, keep: Seq<bool>) -> Seq<u8>
    decreases s.len(),
{
    if s.len() == 0 {
        Seq::empty()
    } else {
        mask_keep(s.drop_last(), keep.drop_last()) + if 0 < keep.len() && keep.last() {
            seq![s.last()]
        } else {
            Seq::empty()
        }
    }
}

/// A prefix of a sequence of accepted characters is accepted.
pub proof fn lemma_take_chars<A: SemanticStringAccessor>(s: Seq<u8>, n: int)
    requires
        0 <= n <= s.len(),
        !seq_has_invalid_chars::<A>(s),
    ensures
        !seq_has_invalid_chars::<A>(s.take(n)),
{
    assert forall|i: int| 0 <= i < n implies !A::spec_is_invalid_character(s.take(n)[i]) by {
        assert(s.take(n)[i] == s[i]);
        assert(!A::spec_is_invalid_character(s[i]));
    };
}

/// A tail of a sequence of accepted characters is accepted.
pub proof fn lemma_skip_chars<A: SemanticStringAccessor>(s: Seq<u8>, n: int)
    requires
        0 <= n <= s.len(),
        !seq_has_invalid_chars::<A>(s),
    ensures
        !seq_has_invalid_chars::<A>(s.skip(n)),
{
    assert forall|i: int| 0 <= i < s.len() - n implies !A::spec_is_invalid_character(
        s.skip(n)[i],
    ) by {
        assert(s.skip(n)[i] == s[i + n]);
        assert(!A::spec_is_invalid_character(s[i + n]));
    };
}

/// Removing a range from a sequence of accepted characters leaves only
/// accepted characters.
pub proof fn lemma_removed_range_chars<A: SemanticStringAccessor>(s: Seq<u8>, idx: int, n: int)
    requires
        0 <= idx,
        0 <= n,
        idx + n <= s.len(),
        !seq_has_invalid_chars::<A>(s),
    ensures
        !seq_has_invalid_chars::<A>(removed_range(s, idx, n)),
{
    let t = removed_range(s, idx, n);
    assert forall|i: int| 0 <= i < t.len() implies !A::spec_is_invalid_character(t[i]) by {
        if i < idx {
            assert(t[i] == s[i]);
            assert(!A::spec_is_invalid_character(s[i]));
        } else {
            assert(t[i] == s[i + n]);
            assert(!A::spec_is_invalid_character(s[i + n]));
        }
    };
}

/// A masked selection never grows.
pub proof fn lemma_mask_keep_len(s: Seq<u8>, keep: Seq<bool>)
    ensures
        mask_keep(s, keep).len() <= s.len(),
    decreases s.len(),
{
    if s.len() > 0 {
        lemma_mask_keep_len(s.drop_last(), keep.drop_last());
    }
}

/// A masked selection of accepted characters contains only accepted
/// characters.
pub proof fn lemma_mask_keep_chars<A: SemanticStringAccessor>(s: Seq<u8>, keep: Seq<bool>)
    requires
        !seq_has_invalid_chars::<A>(s),
    ensures
        !seq_has_invalid_chars::<A>(mask_keep(s, keep)),
    decreases s.len(),
{
    if s.len() > 0 {
        assert forall|i: int|
            0 <= i < s.drop_last().len() implies !A::spec_is_invalid_character(
            s.drop_last()[i],
        ) by {
            assert(s.drop_last()[i] == s[i]);
            assert(!A::spec_is_invalid_character(s[i]));
        };
        lemma_mask_keep_chars::<A>(s.drop_last(), keep.drop_last());
        let t = mask_keep(s, keep);
        let u = mask_keep(s.drop_last(), keep.drop_last());
        assert forall|i: int| 0 <= i < t.len() implies !A::spec_is_invalid_character(t[i]) by {
            if i < u.len() {
                assert(t[i] == u[i]);
            } else {
                assert(t[i] == s.last());
                assert(!A::spec_is_invalid_character(s[s.len() - 1]));
            }
        };
    }
}

/// A fresh buffer with exactly the bytes of `v`.
pub fn copy_bytes(v: &Vec<u8>) -> (r: Vec<u8>)
    ensures
        r@ == v@,
{
    let mut out: Vec<u8> = Vec::new();
    let mut i: usize = 0;
    while i < v.len()
        invariant
            i <= v@.len(),
            out@ == v@.take(i as int),
        decreases v@.len() - i,
    {
        proof {
            assert(v@.take(i + 1) =~= v@.take(i as int).push(v@[i as int]));
        }
        out.push(v[i]);
        i += 1;
    }
    proof {
        assert(v@.take(v@.len() as int) =~= v@);
    }
    out
}

/// The equality relation every identifier family compares by: byte
/// equality of the normalized forms.
pub open spec fn same_name<A: SemanticStringAccessor>(x: Seq<u8>, y: Seq<u8>) -> bool {
    A::spec_normalized(x) == A::spec_normalized(y)
}

/// Normalization is idempotent on identifier values: the normalized form
/// of a valid identifier is a fixed point of normalization.
pub proof fn lemma_normalize_idempotent<A: SemanticString>(x: A)
    requires
        is_wf_chars::<A>(x@),
    ensures
        A::spec_normalized(A::spec_normalized(x@)) == A::spec_normalized(x@),
{
    A::lemma_normalized_idempotent(x@);
}

/// Equality of identifiers is normalization-invariant.  Two identifiers
/// whose representations normalize identically are equal — `eq_spec` of
/// every family is byte equality of normalized forms, here `same_name` —
/// and the key under which an identifier is indexed, its normalized byte
/// string, is then identical too.  By idempotence, normalizing either
/// side beforehand changes nothing.
pub proof fn lemma_equality_normalization_invariant<A: SemanticString>(x: A, y: A)
    requires
        is_wf_chars::<A>(x@),
        is_wf_chars::<A>(y@),
        A::spec_normalized(x@) == A::spec_normalized(y@),
    ensures
        same_name::<A>(x@, y@),
        same_name::<A>(A::spec_normalized(x@), y@),
        same_name::<A>(x@, A::spec_normalized(y@)),
{
    A::lemma_normalized_idempotent(x@);
    A::lemma_normalized_idempotent(y@);
}

/// Appends the bytes of `src` between `from` and `to` onto `out`.
pub fn copy_range(src: &Vec<u8>, from: usize, to: usize, out: &mut Vec<u8>)
    requires
        from <= to <= src@.len(),
    ensures
        final(out)@ == old(out)@ + src@.subrange(from as int, to as int),
{
    let mut i: usize = from;
    while i < to
        invariant
            from <= i <= to <= src@.len(),
            out@ == old(out)@ + src@.subrange(from as int, i as int),
        decreases to - i,
    {
        proof {
            assert(old(out)@ + src@.subrange(from as int, i + 1) =~= (old(out)@ + src@.subrange(
                from as int,
                i as int,
            )).push(src@[i as int]));
        }
        out.push(src[i]);
        i += 1;
    }
}

/// Does `v` begin with the bytes `p`?
pub fn starts_with(v: &Vec<u8>, p: &[u8]) -> (r: bool)
    ensures
        r == is_prefix_of(p@, v@),
{
    if v.len() < p.len() {
        return false;
    }
    let mut i: usize = 0;
    while i < p.len()
        invariant
            i <= p@.len() <= v@.len(),
            forall|j: int| 0 <= j < i ==> v@[j] == p@[j],
        decreases p@.len() - i,
    {
        if v[i] != p[i] {
            proof {
                assert(v@.take(p@.len() as int)[i as int] == v@[i as int]);
            }
            return false;
        }
        i += 1;
    }
    proof {
        assert(v@.take(p@.len() as int) =~= p@);
    }
    true
}

/// Does `v` end with the bytes `p`?
pub fn ends_with(v: &Vec<u8>, p: &[u8]) -> (r: bool)
    ensures
        r == is_suffix_of(p@, v@),
{
    if v.len() < p.len() {
        return false;
    }
    let off = v.len() - p.len();
    let ghost goff = off as int;
    let mut i: usize = 0;
    while i < p.len()
        invariant
            i <= p@.len() <= v@.len(),
            goff == off,
            off + p@.len() == v@.len(),
            v@.len() <= usize::MAX,
            forall|j: int| 0 <= j < i ==> v@[goff + j] == p@[j],
        decreases p@.len() - i,
    {
        if v[off + i] != p[i] {
            proof {
                assert(v@.skip(goff)[i as int] == v@[goff + i]);
            }
            return false;
        }
        i += 1;
    }
    proof {
        assert(v@.skip(goff) =~= p@);
    }
    true
}

/// Byte-for-byte comparison of two slices.
pub fn bytes_equal(a: &[u8], b: &[u8]) -> (r: bool)
    ensures
        r == (a@ == b@),
{
    if a.len() != b.len() {
        return false;
    }
    let mut i: usize = 0;
    while i < a.len()
        invariant
            i <= a@.len(),
            a@.len() == b@.len(),
            forall|j: int| 0 <= j < i ==> a@[j] == b@[j],
        decreases a@.len() - i,
    {
        if a[i] != b[i] {
            return false;
        }
        i += 1;
    }
    proof {
        assert(a@ =~= b@);
    }
    true
}

/// The family-specific part of a semantic string: its capacity, its
/// character and content rules, its normalization, and access to the
/// underlying bounded byte buffer.  The engine trait `SemanticString` builds
/// the shared algorithms on top of these.
pub trait SemanticStringAccessor: View<V = Seq<u8>> + Sized {
    /// The family's capacity: no value of the family ever holds more bytes.
    spec fn capacity_spec() -> usize;

    /// The family's character rule, byte by byte.
    spec fn spec_is_invalid_character(c: u8) -> bool;

    /// The family's content rule, on the whole value.
    spec fn spec_is_invalid_content(s: Seq<u8>) -> bool;

    /// The family's normalization: the uniform representative of all
    /// spellings with the same semantic content.
    spec fn spec_normalized(s: Seq<u8>) -> Seq<u8>;

    /// Creates an empty value.  The empty content may violate the family's
    /// content rule; the caller validates before the value becomes visible.
    fn new_empty() -> (r: Self)
        ensures
            r@ == Seq::<u8>::empty(),
    ;

    /// Read access to the underlying byte buffer.
    fn as_string(&self) -> (r: &Vec<u8>)
        ensures
            r@ == self@,
    ;

    /// Replaces the underlying byte buffer; used by the engine to commit a
    /// validated scratch copy.
    fn set_string(&mut self, s: Vec<u8>)
        ensures
            final(self)@ == s@,
    ;

    /// The capacity as a runtime value.
    fn max_len() -> (r: usize)
        ensures
            r == Self::capacity_spec(),
    ;

    /// Runs the family's character rule on one byte.
    fn is_invalid_character(c: u8) -> (r: bool)
        ensures
            r == Self::spec_is_invalid_character(c),
    ;

    /// Runs the family's content rule.
    fn is_invalid_content(s: &[u8]) -> (r: bool)
        ensures
            r == Self::spec_is_invalid_content(s@),
    ;

    /// Scans for a byte the family does not accept.
    fn does_contain_invalid_characters(s: &[u8]) -> (r: bool)
        ensures
            r == exists|i: int| 0 <= i < s@.len() && Self::spec_is_invalid_character(s@[i]),
    {
        let mut i: usize = 0;
        while i < s.len()
            invariant
                i <= s@.len(),
                forall|j: int| 0 <= j < i ==> !Self::spec_is_invalid_character(s@[j]),
            decreases s@.len() - i,
        {
            if Self::is_invalid_character(s[i]) {
                return true;
            }
            i += 1;
        }
        false
    }

    /// Normalization is idempotent: a normalized value normalizes to itself.
    proof fn lemma_normalized_idempotent(s: Seq<u8>)
        requires
            s.len() <= Self::capacity_spec(),
            !(exists|i: int| 0 <= i < s.len() && Self::spec_is_invalid_character(s[i])),
        ensures
            Self::spec_normalized(Self::spec_normalized(s)) == Self::spec_normalized(s),
    ;

    /// Normalization never exceeds the capacity, never reintroduces an
    /// invalid character, and never turns accepted content into rejected
    /// content.
    proof fn lemma_normalized_wf(s: Seq<u8>)
        requires
            s.len() <= Self::capacity_spec(),
            !(exists|i: int| 0 <= i < s.len() && Self::spec_is_invalid_character(s[i])),
        ensures
            Self::spec_normalized(s).len() <= Self::capacity_spec(),
            !(exists|i: int|
                0 <= i < Self::spec_normalized(s).len() && Self::spec_is_invalid_character(
                    Self::spec_normalized(s)[i],
                )),
            !Self::spec_is_invalid_content(s) ==> !Self::spec_is_invalid_content(
                Self::spec_normalized(s),
            ),
    ;
}

/// The operations all semantic strings share.  Every mutating operation
/// either commits a validated result or leaves the value unchanged and
/// reports why.
pub trait SemanticString: SemanticStringAccessor {
    /// Produces the family's uniform representative of this value.
    /// Equality of identifiers is byte equality of the normalized forms.
    fn normalize(&self) -> (r: Self)
        ensures
            r@ == Self::spec_normalized(self@),
    ;

    /// Creates a new name.  Fails with `InvalidCharacter` if the bytes
    /// contain a character the family rejects, with `ExceedsMaximumLength`
    /// if there are more bytes than the capacity admits, and with
    /// `InvalidName` if the content rule rejects the accepted bytes.
    fn new(value: &[u8]) -> (r: Result<Self, SemanticStringError>)
        ensures
            new_post::<Self>(value@, r),
    {
        let mut s = Self::new_empty();
        let res = s.insert_bytes(0, value);
        proof {
            assert(inserted(Seq::<u8>::empty(), 0, value@) =~= value@);
        }
        match res {
            Ok(()) => Ok(s),
            Err(e) => Err(e),
        }
    }

    /// The bytes of the name.
    fn as_bytes(&self) -> (r: &[u8])
        ensures
            r@ == self@,
    {
        self.as_string().as_slice()
    }

    /// The family's capacity.
    fn capacity(&self) -> (r: usize)
        ensures
            r == Self::capacity_spec(),
    {
        Self::max_len()
    }

    /// The number of bytes currently held.
    fn len(&self) -> (r: usize)
        ensures
            r == self@.len(),
    {
        self.as_string().len()
    }

    /// True when no bytes are held.
    fn is_empty(&self) -> (r: bool)
        ensures
            r == (self@.len() == 0),
    {
        self.len() == 0
    }

    /// True when the capacity is reached.
    fn is_full(&self) -> (r: bool)
        ensures
            r == (self@.len() == Self::capacity_spec()),
    {
        self.len() == Self::max_len()
    }

    /// The bytes of the name followed by one terminator byte, for export
    /// across a foreign boundary.  All terminator maintenance lives here;
    /// the name itself never holds a terminator, since 0 is no accepted
    /// character of any family.
    fn to_null_terminated(&self) -> (r: Vec<u8>)
        ensures
            r@ == self@.push(0u8),
    {
        let mut out = copy_bytes(self.as_string());
        out.push(0);
        out
    }

    /// Inserts a byte slice at position `idx`.  The characters are validated
    /// first, then the bounded insertion is attempted, then the content rule
    /// is checked on the prospective result; on any failure the value is
    /// unchanged.
    fn insert_bytes(&mut self, idx: usize, bytes: &[u8]) -> (r: Result<(), SemanticStringError>)
        requires
            idx <= old(self)@.len(),
        ensures
            insert_bytes_post::<Self>(old(self)@, idx as int, bytes@, final(self)@, r),
            is_wf_chars::<Self>(old(self)@) ==> is_wf_chars::<Self>(final(self)@),
            r is Ok && is_wf_chars::<Self>(old(self)@) ==> is_wf_name::<Self>(final(self)@),
    {
        if Self::does_contain_invalid_characters(bytes) {
            return Err(SemanticStringError::InvalidCharacter);
        }
        let cap = Self::max_len();
        let cur_len = self.as_string().len();
        if cur_len > cap || bytes.len() > cap - cur_len {
            return Err(SemanticStringError::ExceedsMaximumLength);
        }
        let s = self.as_string();
        let ghost target = inserted(old(self)@, idx as int, bytes@);
        let mut candidate: Vec<u8> = Vec::new();
        let mut j: usize = 0;
        while j < idx
            invariant
                j <= idx <= s@.len(),
                s@ == old(self)@,
                candidate@ == s@.take(j as int),
            decreases idx - j,
        {
            candidate.push(s[j]);
            j += 1;
        }
        let mut k: usize = 0;
        while k < bytes.len()
            invariant
                k <= bytes@.len(),
                idx <= s@.len(),
                s@ == old(self)@,
                candidate@ == s@.take(idx as int) + bytes@.take(k as int),
            decreases bytes@.len() - k,
        {
            proof {
                assert(s@.take(idx as int) + bytes@.take(k + 1) =~= (s@.take(idx as int)
                    + bytes@.take(k as int)).push(bytes@[k as int]));
            }
            candidate.push(bytes[k]);
            k += 1;
        }
        proof {
            assert(bytes@.take(bytes@.len() as int) =~= bytes@);
        }
        let mut m: usize = idx;
        while m < s.len()
            invariant
                idx <= m <= s@.len(),
                s@ == old(self)@,
                candidate@ == s@.take(idx as int) + bytes@ + s@.subrange(idx as int, m as int),
            decreases s@.len() - m,
        {
            proof {
                assert(s@.take(idx as int) + bytes@ + s@.subrange(idx as int, m + 1) =~= (s@.take(
                    idx as int,
                ) + bytes@ + s@.subrange(idx as int, m as int)).push(s@[m as int]));
            }
            candidate.push(s[m]);
            m += 1;
        }
        proof {
            assert(s@.subrange(idx as int, s@.len() as int) =~= s@.skip(idx as int));
            assert(candidate@ =~= target);
        }
        if Self::is_invalid_content(candidate.as_slice()) {
            return Err(SemanticStringError::InvalidName);
        }
        proof {
            if is_wf_chars::<Self>(old(self)@) {
                lemma_inserted_chars::<Self>(old(self)@, idx as int, bytes@);
            }
        }
        self.set_string(candidate);
        Ok(())
    }

    /// Inserts a single byte at position `idx`, under the same rules as
    /// `insert_bytes`.
    fn insert(&mut self, idx: usize, byte: u8) -> (r: Result<(), SemanticStringError>)
        requires
            idx <= old(self)@.len(),
        ensures
            insert_bytes_post::<Self>(old(self)@, idx as int, seq![byte], final(self)@, r),
            is_wf_chars::<Self>(old(self)@) ==> is_wf_chars::<Self>(final(self)@),
            r is Ok && is_wf_chars::<Self>(old(self)@) ==> is_wf_name::<Self>(final(self)@),
    {
        let mut buf: Vec<u8> = Vec::new();
        buf.push(byte);
        proof {
            assert(buf@ =~= seq![byte]);
        }
        self.insert_bytes(idx, buf.as_slice())
    }

    /// Appends a single byte, under the same rules as `insert_bytes`.
    fn push(&mut self, byte: u8) -> (r: Result<(), SemanticStringError>)
        ensures
            insert_bytes_post::<Self>(
                old(self)@,
                old(self)@.len() as int,
                seq![byte],
                final(self)@,
                r,
            ),
            r is Ok ==> final(self)@ == old(self)@.push(byte),
            is_wf_chars::<Self>(old(self)@) ==> is_wf_chars::<Self>(final(self)@),
            r is Ok && is_wf_chars::<Self>(old(self)@) ==> is_wf_name::<Self>(final(self)@),
    {
        let idx = self.len();
        let r = self.insert(idx, byte);
        proof {
            assert(inserted(old(self)@, old(self)@.len() as int, seq![byte]) =~= old(
                self,
            )@.push(byte));
        }
        r
    }

    /// Appends a byte slice, under the same rules as `insert_bytes`.
    fn push_bytes(&mut self, bytes: &[u8]) -> (r: Result<(), SemanticStringError>)
        ensures
            insert_bytes_post::<Self>(
                old(self)@,
                old(self)@.len() as int,
                bytes@,
                final(self)@,
                r,
            ),
            r is Ok ==> final(self)@ == old(self)@ + bytes@,
            is_wf_chars::<Self>(old(self)@) ==> is_wf_chars::<Self>(final(self)@),
            r is Ok && is_wf_chars::<Self>(old(self)@) ==> is_wf_name::<Self>(final(self)@),
    {
        let idx = self.len();
        let r = self.insert_bytes(idx, bytes);
        proof {
            assert(inserted(old(self)@, old(self)@.len() as int, bytes@) =~= old(self)@
                + bytes@);
        }
        r
    }

    /// Removes `len` bytes from position `idx` on.  The removal is computed
    /// on a scratch copy and committed only if the content rule accepts it;
    /// otherwise the value is unchanged and `InvalidName` is reported.
    fn remove_range(&mut self, idx: usize, len: usize) -> (r: Result<(), SemanticStringError>)
        requires
            idx + len <= old(self)@.len(),
        ensures
            remove_range_post::<Self>(old(self)@, idx as int, len as int, final(self)@, r),
            is_wf_chars::<Self>(old(self)@) ==> is_wf_chars::<Self>(final(self)@),
            is_wf_name::<Self>(old(self)@) ==> is_wf_name::<Self>(final(self)@),
    {
        let s = self.as_string();
        let n = s.len();
        let mut candidate: Vec<u8> = Vec::new();
        copy_range(s, 0, idx, &mut candidate);
        copy_range(s, idx + len, n, &mut candidate);
        proof {
            assert(candidate@ =~= removed_range(old(self)@, idx as int, len as int));
        }
        if Self::is_invalid_content(candidate.as_slice()) {
            return Err(SemanticStringError::InvalidName);
        }
        proof {
            if is_wf_chars::<Self>(old(self)@) {
                lemma_removed_range_chars::<Self>(old(self)@, idx as int, len as int);
            }
        }
        self.set_string(candidate);
        Ok(())
    }

    /// Removes the byte at position `idx` and returns it, under the same
    /// scratch-copy rule as `remove_range`.
    fn remove(&mut self, idx: usize) -> (r: Result<u8, SemanticStringError>)
        requires
            idx < old(self)@.len(),
        ensures
            match r {
                Ok(b) => b == old(self)@[idx as int] && !Self::spec_is_invalid_content(
                    removed_range(old(self)@, idx as int, 1),
                ) && final(self)@ == removed_range(old(self)@, idx as int, 1),
                Err(SemanticStringError::InvalidName) => Self::spec_is_invalid_content(
                    removed_range(old(self)@, idx as int, 1),
                ) && final(self)@ == old(self)@,
                Err(_) => false,
            },
            is_wf_chars::<Self>(old(self)@) ==> is_wf_chars::<Self>(final(self)@),
            is_wf_name::<Self>(old(self)@) ==> is_wf_name::<Self>(final(self)@),
    {
        let s = self.as_string();
        let b = s[idx];
        match self.remove_range(idx, 1) {
            Ok(()) => Ok(b),
            Err(e) => Err(e),
        }
    }

    /// Removes the trailing byte.  An empty value yields `Ok(None)`:
    /// emptiness alone is never an error here.
    fn pop(&mut self) -> (r: Result<Option<u8>, SemanticStringError>)
        ensures
            pop_post::<Self>(old(self)@, final(self)@, r),
            is_wf_chars::<Self>(old(self)@) ==> is_wf_chars::<Self>(final(self)@),
            is_wf_name::<Self>(old(self)@) ==> is_wf_name::<Self>(final(self)@),
    {
        let n = self.len();
        if n == 0 {
            return Ok(None);
        }
        proof {
            assert(removed_range(old(self)@, old(self)@.len() - 1, 1) =~= old(
                self,
            )@.drop_last());
        }
        match self.remove(n - 1) {
            Ok(b) => Ok(Some(b)),
            Err(e) => Err(e),
        }
    }

    /// Shortens the value to at most `new_len` bytes.  As with every other
    /// mutation, the shortened content must pass the content rule, or the
    /// value stays as it is.
    fn truncate(&mut self, new_len: usize) -> (r: Result<(), SemanticStringError>)
        ensures
            truncate_post::<Self>(old(self)@, new_len as int, final(self)@, r),
            is_wf_chars::<Self>(old(self)@) ==> is_wf_chars::<Self>(final(self)@),
            is_wf_name::<Self>(old(self)@) ==> is_wf_name::<Self>(final(self)@),
    {
        let s = self.as_string();
        let m = if new_len < s.len() {
            new_len
        } else {
            s.len()
        };
        let mut candidate: Vec<u8> = Vec::new();
        copy_range(s, 0, m, &mut candidate);
        proof {
            assert(candidate@ =~= old(self)@.take(m as int));
            if m == old(self)@.len() {
                assert(candidate@ =~= old(self)@);
            }
        }
        if Self::is_invalid_content(candidate.as_slice()) {
            return Err(SemanticStringError::InvalidName);
        }
        proof {
            if is_wf_chars::<Self>(old(self)@) {
                lemma_take_chars::<Self>(old(self)@, m as int);
            }
        }
        self.set_string(candidate);
        Ok(())
    }

    /// Removes `bytes` from the front when it stands there.  An absent
    /// prefix is `Ok(false)`, not an error; a removal the content rule
    /// rejects is `InvalidName`, and the value is unchanged either way.
    fn strip_prefix(&mut self, bytes: &[u8]) -> (r: Result<bool, SemanticStringError>)
        ensures
            strip_prefix_post::<Self>(old(self)@, bytes@, final(self)@, r),
            is_wf_chars::<Self>(old(self)@) ==> is_wf_chars::<Self>(final(self)@),
            is_wf_name::<Self>(old(self)@) ==> is_wf_name::<Self>(final(self)@),
    {
        let matched = starts_with(self.as_string(), bytes);
        if !matched {
            return Ok(false);
        }
        let s = self.as_string();
        let mut candidate: Vec<u8> = Vec::new();
        copy_range(s, bytes.len(), s.len(), &mut candidate);
        proof {
            assert(candidate@ =~= old(self)@.skip(bytes@.len() as int));
        }
        if Self::is_invalid_content(candidate.as_slice()) {
            return Err(SemanticStringError::InvalidName);
        }
        proof {
            if is_wf_chars::<Self>(old(self)@) {
                lemma_skip_chars::<Self>(old(self)@, bytes@.len() as int);
            }
        }
        self.set_string(candidate);
        Ok(true)
    }

    /// Removes `bytes` from the end when it stands there, under the same
    /// rules as `strip_prefix`.
    fn strip_suffix(&mut self, bytes: &[u8]) -> (r: Result<bool, SemanticStringError>)
        ensures
            strip_suffix_post::<Self>(old(self)@, bytes@, final(self)@, r),
            is_wf_chars::<Self>(old(self)@) ==> is_wf_chars::<Self>(final(self)@),
            is_wf_name::<Self>(old(self)@) ==> is_wf_name::<Self>(final(self)@),
    {
        let matched = ends_with(self.as_string(), bytes);
        if !matched {
            return Ok(false);
        }
        let s = self.as_string();
        let keep_len = s.len() - bytes.len();
        let mut candidate: Vec<u8> = Vec::new();
        copy_range(s, 0, keep_len, &mut candidate);
        proof {
            assert(candidate@ =~= old(self)@.take(old(self)@.len() - bytes@.len()));
        }
        if Self::is_invalid_content(candidate.as_slice()) {
            return Err(SemanticStringError::InvalidName);
        }
        proof {
            if is_wf_chars::<Self>(old(self)@) {
                lemma_take_chars::<Self>(old(self)@, old(self)@.len() - bytes@.len());
            }
        }
        self.set_string(candidate);
        Ok(true)
    }

    /// Removes every byte the predicate `f` holds of.  The kept bytes are
    /// described by a mask whose entries agree with what `f` returned; the
    /// result must pass the content rule, or the value is unchanged.
    fn retain<F: Fn(u8) -> bool>(&mut self, f: F) -> (r: Result<(), SemanticStringError>)
        requires
            forall|b: u8| call_requires(f, (b,)),
        ensures
            match r {
                Ok(()) => exists|keep: Seq<bool>|
                    #![auto]
                    {
                        &&& keep.len() == old(self)@.len()
                        &&& forall|i: int|
                            0 <= i < keep.len() ==> call_ensures(f, (old(self)@[i],), !keep[i])
                        &&& !Self::spec_is_invalid_content(mask_keep(old(self)@, keep))
                        &&& final(self)@ == mask_keep(old(self)@, keep)
                    },
                Err(SemanticStringError::InvalidName) => final(self)@ == old(self)@
                    && exists|keep: Seq<bool>|
                    #![auto]
                    {
                        &&& keep.len() == old(self)@.len()
                        &&& forall|i: int|
                            0 <= i < keep.len() ==> call_ensures(f, (old(self)@[i],), !keep[i])
                        &&& Self::spec_is_invalid_content(mask_keep(old(self)@, keep))
                    },
                Err(_) => false,
            },
            is_wf_chars::<Self>(old(self)@) ==> is_wf_chars::<Self>(final(self)@),
            is_wf_name::<Self>(old(self)@) ==> r is Ok ==> is_wf_name::<Self>(final(self)@),
    {
        let s = self.as_string();
        let mut out: Vec<u8> = Vec::new();
        let ghost mut keep: Seq<bool> = Seq::empty();
        let mut i: usize = 0;
        while i < s.len()
            invariant
                i <= s@.len(),
                s@ == old(self)@,
                keep.len() == i as int,
                forall|j: int| 0 <= j < i ==> call_ensures(f, (s@[j],), !keep[j]),
                out@ == mask_keep(s@.take(i as int), keep),
                forall|b: u8| call_requires(f, (b,)),
            decreases s@.len() - i,
        {
            let b = s[i];
            let discard = f(b);
            proof {
                let prev_keep = keep;
                keep = keep.push(!discard);
                assert(s@.take(i + 1).drop_last() =~= s@.take(i as int));
                assert(keep.drop_last() =~= prev_keep);
                assert(s@.take(i + 1).last() == s@[i as int]);
            }
            if !discard {
                out.push(b);
            }
            i += 1;
        }
        proof {
            assert(s@.take(s@.len() as int) =~= s@);
        }
        if Self::is_invalid_content(out.as_slice()) {
            return Err(SemanticStringError::InvalidName);
        }
        proof {
            if is_wf_chars::<Self>(old(self)@) {
                lemma_mask_keep_chars::<Self>(old(self)@, keep);
                lemma_mask_keep_len(old(self)@, keep);
            }
        }
        self.set_string(out);
        Ok(())
    }
}

} // verus!
