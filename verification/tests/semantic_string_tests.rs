use iox_core::file_name::FileName;
use iox_core::node_name::NodeName;
use iox_core::path_name::PathName;
use iox_core::semantic_string::{SemanticString, SemanticStringError};
use iox_core::service_name::ServiceName;
use iox_core::tag::Tag;

#[test]
fn new_accepts_valid_bytes() {
    let n = ServiceName::new(b"my-service/instance_1").unwrap();
    assert_eq!(n.as_bytes(), b"my-service/instance_1");
    assert_eq!(n.len(), 21);
    assert!(!n.is_empty());
    assert_eq!(n.capacity(), 255);

    let n = NodeName::new(b"").unwrap();
    assert!(n.is_empty());

    let f = FileName::new(b"node_1").unwrap();
    assert_eq!(f.as_bytes(), b"node_1");
}

#[test]
fn new_rejects_invalid_characters() {
    assert_eq!(
        NodeName::new(b"line\nbreak").unwrap_err(),
        SemanticStringError::InvalidCharacter
    );
    assert_eq!(
        ServiceName::new(b"nul\0byte").unwrap_err(),
        SemanticStringError::InvalidCharacter
    );
    assert_eq!(
        FileName::new(b"no/slash").unwrap_err(),
        SemanticStringError::InvalidCharacter
    );
}

#[test]
fn new_rejects_excess_length() {
    let long = [b'a'; 256];
    assert_eq!(
        ServiceName::new(&long).unwrap_err(),
        SemanticStringError::ExceedsMaximumLength
    );
    let long = [b'a'; 129];
    assert_eq!(
        NodeName::new(&long).unwrap_err(),
        SemanticStringError::ExceedsMaximumLength
    );
}

#[test]
fn new_rejects_invalid_content() {
    assert_eq!(
        ServiceName::new(b"").unwrap_err(),
        SemanticStringError::InvalidName
    );
    assert_eq!(
        FileName::new(b".").unwrap_err(),
        SemanticStringError::InvalidName
    );
    assert_eq!(
        FileName::new(b"..").unwrap_err(),
        SemanticStringError::InvalidName
    );
    assert_eq!(
        PathName::new(b"up/../escape").unwrap_err(),
        SemanticStringError::InvalidName
    );
}

#[test]
fn tag_accepts_short_name() {
    let t = Tag::new(b"ab").unwrap();
    assert_eq!(t.as_bytes(), b"ab");
}

#[test]
fn tag_rejects_overlong_name() {
    assert_eq!(
        Tag::new(b"123456789").unwrap_err(),
        SemanticStringError::ExceedsMaximumLength
    );
}

#[test]
fn tag_rejects_blank_name() {
    assert_eq!(Tag::new(b"   ").unwrap_err(), SemanticStringError::InvalidName);
    assert_eq!(Tag::new(b"").unwrap_err(), SemanticStringError::InvalidName);
    assert!(Tag::new(b" a ").is_ok());
}

#[test]
fn normalize_is_idempotent() {
    let p = PathName::new(b"a//b///c").unwrap();
    let once = p.normalize();
    assert_eq!(once.as_bytes(), b"a/b/c");
    let twice = once.normalize();
    assert_eq!(twice.as_bytes(), once.as_bytes());

    let t = Tag::new(b"AbC").unwrap();
    let once = t.normalize();
    assert_eq!(once.as_bytes(), b"abc");
    let twice = once.normalize();
    assert_eq!(twice.as_bytes(), once.as_bytes());

    let n = NodeName::new(b"AsIs").unwrap();
    assert_eq!(n.normalize().as_bytes(), b"AsIs");
}

#[test]
fn equality_is_normalization_invariant() {
    let a = Tag::new(b"AB").unwrap();
    let b = Tag::new(b"ab").unwrap();
    assert!(a == b);
    assert_eq!(a.normalize().as_bytes(), b.normalize().as_bytes());
    let c = Tag::new(b"ac").unwrap();
    assert!(a != c);

    let p = PathName::new(b"a//b").unwrap();
    let q = PathName::new(b"a/b").unwrap();
    assert!(p == q);
    assert_eq!(p.normalize().as_bytes(), q.normalize().as_bytes());
    let r = PathName::new(b"a/c").unwrap();
    assert!(p != r);

    let x = ServiceName::new(b"Svc").unwrap();
    let y = ServiceName::new(b"svc").unwrap();
    assert!(x != y);
}

#[test]
fn insert_bytes_is_atomic_on_content_violation() {
    let mut p = PathName::new(b"a.b/c").unwrap();
    assert_eq!(
        p.insert_bytes(2, b".").unwrap_err(),
        SemanticStringError::InvalidName
    );
    assert_eq!(p.as_bytes(), b"a.b/c");

    let mut p = PathName::new(b"x").unwrap();
    assert_eq!(
        p.insert_bytes(1, b"/..").unwrap_err(),
        SemanticStringError::InvalidName
    );
    assert_eq!(p.as_bytes(), b"x");
}

#[test]
fn insert_bytes_is_atomic_on_invalid_characters() {
    let mut n = ServiceName::new(b"ab").unwrap();
    assert_eq!(
        n.insert_bytes(1, b"\tc").unwrap_err(),
        SemanticStringError::InvalidCharacter
    );
    assert_eq!(n.as_bytes(), b"ab");
}

#[test]
fn insert_bytes_is_atomic_on_overflow() {
    let mut t = Tag::new(b"12345678").unwrap();
    assert_eq!(
        t.insert_bytes(4, b"x").unwrap_err(),
        SemanticStringError::ExceedsMaximumLength
    );
    assert_eq!(t.as_bytes(), b"12345678");
}

#[test]
fn insert_bytes_splices_in_place() {
    let mut n = ServiceName::new(b"abef").unwrap();
    n.insert_bytes(2, b"cd").unwrap();
    assert_eq!(n.as_bytes(), b"abcdef");
    n.insert(0, b'_').unwrap();
    assert_eq!(n.as_bytes(), b"_abcdef");
}

#[test]
fn push_and_pop_round_trip() {
    let mut n = NodeName::new(b"nod").unwrap();
    n.push(b'e').unwrap();
    assert_eq!(n.as_bytes(), b"node");
    n.push_bytes(b"-42").unwrap();
    assert_eq!(n.as_bytes(), b"node-42");
    assert_eq!(n.pop().unwrap(), Some(b'2'));
    assert_eq!(n.as_bytes(), b"node-4");
}

#[test]
fn pop_on_empty_is_not_an_error() {
    let mut n = NodeName::new(b"").unwrap();
    assert_eq!(n.pop().unwrap(), None);
    assert_eq!(n.as_bytes(), b"");
}

#[test]
fn pop_refuses_to_invalidate_content() {
    let mut s = ServiceName::new(b"a").unwrap();
    assert_eq!(s.pop().unwrap_err(), SemanticStringError::InvalidName);
    assert_eq!(s.as_bytes(), b"a");
}

#[test]
fn remove_returns_the_removed_byte() {
    let mut f = FileName::new(b"a.b").unwrap();
    assert_eq!(f.remove(1).unwrap(), b'.');
    assert_eq!(f.as_bytes(), b"ab");
}

#[test]
fn remove_refuses_to_invalidate_content() {
    let mut f = FileName::new(b".a").unwrap();
    assert_eq!(f.remove(1).unwrap_err(), SemanticStringError::InvalidName);
    assert_eq!(f.as_bytes(), b".a");
}

#[test]
fn remove_range_drops_the_middle() {
    let mut s = ServiceName::new(b"abcdef").unwrap();
    s.remove_range(1, 3).unwrap();
    assert_eq!(s.as_bytes(), b"aef");
    let mut f = FileName::new(b"a..").unwrap();
    assert_eq!(
        f.remove_range(0, 1).unwrap_err(),
        SemanticStringError::InvalidName
    );
    assert_eq!(f.as_bytes(), b"a..");
}

#[test]
fn truncate_shortens_and_validates() {
    let mut s = ServiceName::new(b"abc").unwrap();
    s.truncate(2).unwrap();
    assert_eq!(s.as_bytes(), b"ab");
    s.truncate(10).unwrap();
    assert_eq!(s.as_bytes(), b"ab");
    assert_eq!(s.truncate(0).unwrap_err(), SemanticStringError::InvalidName);
    assert_eq!(s.as_bytes(), b"ab");
}

#[test]
fn retain_keeps_what_the_predicate_spares() {
    let mut n = NodeName::new(b"a.b.c").unwrap();
    n.retain(|b| b == b'.').unwrap();
    assert_eq!(n.as_bytes(), b"abc");
}

#[test]
fn retain_refuses_to_invalidate_content() {
    let mut s = ServiceName::new(b"aaa").unwrap();
    assert_eq!(
        s.retain(|b| b == b'a').unwrap_err(),
        SemanticStringError::InvalidName
    );
    assert_eq!(s.as_bytes(), b"aaa");
}

#[test]
fn strip_prefix_reports_absence_as_false() {
    let mut s = ServiceName::new(b"prefix/name").unwrap();
    assert_eq!(s.strip_prefix(b"other/").unwrap(), false);
    assert_eq!(s.as_bytes(), b"prefix/name");
    assert_eq!(s.strip_prefix(b"prefix/").unwrap(), true);
    assert_eq!(s.as_bytes(), b"name");
}

#[test]
fn strip_suffix_reports_absence_as_false() {
    let mut s = ServiceName::new(b"name.suffix").unwrap();
    assert_eq!(s.strip_suffix(b".other").unwrap(), false);
    assert_eq!(s.as_bytes(), b"name.suffix");
    assert_eq!(s.strip_suffix(b".suffix").unwrap(), true);
    assert_eq!(s.as_bytes(), b"name");
}

#[test]
fn strip_refuses_to_invalidate_content() {
    let mut s = ServiceName::new(b"abc").unwrap();
    assert_eq!(
        s.strip_prefix(b"abc").unwrap_err(),
        SemanticStringError::InvalidName
    );
    assert_eq!(s.as_bytes(), b"abc");
    assert_eq!(
        s.strip_suffix(b"abc").unwrap_err(),
        SemanticStringError::InvalidName
    );
    assert_eq!(s.as_bytes(), b"abc");
}

#[test]
fn null_terminated_export_appends_one_terminator() {
    let n = NodeName::new(b"hypnotoad").unwrap();
    assert_eq!(n.to_null_terminated(), b"hypnotoad\0");
    assert_eq!(n.as_bytes(), b"hypnotoad");
    let e = NodeName::new(b"").unwrap();
    assert_eq!(e.to_null_terminated(), b"\0");
}

#[test]
fn is_full_tracks_capacity() {
    let t = Tag::new(b"12345678").unwrap();
    assert!(t.is_full());
    let t = Tag::new(b"1234567").unwrap();
    assert!(!t.is_full());
    assert_eq!(t.capacity(), 8);
}
