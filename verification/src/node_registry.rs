//! The node registry scanner: a census over a domain's node directory.
//!
//! The scanner enumerates every identifier in the directory, consults the
//! resource probe for each, classifies it, and hands the classification to
//! a caller-supplied visitor, which decides after each entry whether the
//! scan goes on.  The directory listing and the probe are external
//! collaborators behind the `NodeRegistry` trait; their call histories are
//! part of their specification, so the scanner's contract can say exactly
//! which states a scan delivered.

use vstd::prelude::*;
use crate::config::Config;
use crate::file_name::FileName;
use crate::node_state::{
    CallbackProgression, NodeListFailure, NodeState, NodeStateView, ProbeResult, classify,
    classify_spec,
};

verus! {

/// The bytes of each identifier of `v`, in order.
pub open spec fn id_views(v: Seq<FileName>) -> Seq<Seq<u8>> {
    v.map_values(|x: FileName| x@)
}

/// A directory listing outcome, reduced to its mathematical content.
pub open spec fn listing_view(r: Result<Vec<FileName>, NodeListFailure>) -> Result<
    Seq<Seq<u8>>,
    NodeListFailure,
> {
    match r {
        Ok(v) => Ok(id_views(v@)),
        Err(e) => Err(e),
    }
}

/// The callback a caller hands to `list`.  It is invoked once per
/// classified node, on the scanning thread, and must not re-enter the
/// scanner.  Its history records every state it was handed together with
/// the progression it answered.
pub trait NodeVisitor {
    /// Every visit so far: the classified state and the answer given.
    spec fn visited(&self) -> Seq<(NodeStateView, CallbackProgression)>;

    /// One classified node.  The answer directs the scan: `Continue` to go
    /// on, `Stop` to end it early.
    fn visit(&mut self, state: NodeState) -> (p: CallbackProgression)
        ensures
            final(self).visited() == old(self).visited().push((state@, p)),
    ;
}

/// The external collaborators of a scan: the directory listing of a
/// domain's node directory, and the resource probe for one identifier.
/// Both may block on the file system and both are inherently racy across
/// processes, so nothing is promised about their outcomes; their call
/// histories record what each call actually returned.
pub trait NodeRegistry {
    /// Every directory listing handed out so far.
    spec fn listings(&self) -> Seq<Result<Seq<Seq<u8>>, NodeListFailure>>;

    /// Every probe answered so far: the identifier asked about and the
    /// report returned.
    spec fn probes(&self) -> Seq<(Seq<u8>, <ProbeResult as View>::V)>;

    /// Enumerates the identifiers currently present in the domain's node
    /// directory.  Fails with `InsufficientPermissions` when the directory
    /// itself cannot be opened.
    fn list_identifiers(&mut self, domain: &Config) -> (r: Result<Vec<FileName>, NodeListFailure>)
        ensures
            final(self).probes() == old(self).probes(),
            final(self).listings() == old(self).listings().push(listing_view(r)),
    ;

    /// Reports whether a resource describes `id`, whether its liveness
    /// lock is held by a running process, and what could be read of its
    /// details.  The report is coherent (details only where readable), and
    /// that is all that is promised: the entry may have appeared or
    /// disappeared since any earlier observation.
    fn probe(&mut self, id: &FileName) -> (r: ProbeResult)
        ensures
            final(self).listings() == old(self).listings(),
            final(self).probes() == old(self).probes().push((id@, r@)),
            r@.wf(),
    ;
}

/// How one scan relates the listed `entries` to the probes it made and the
/// visits it delivered: every probed identifier is the listed one, every
/// visit carries the classification of the matching probe, every answer
/// before the last one was `Continue`, and entries remain unvisited only
/// after a `Stop`.
pub open spec fn scan_visits(
    entries: Seq<Seq<u8>>,
    probes_new: Seq<(Seq<u8>, <ProbeResult as View>::V)>,
    visits_new: Seq<(NodeStateView, CallbackProgression)>,
) -> bool {
    &&& probes_new.len() == visits_new.len()
    &&& visits_new.len() <= entries.len()
    &&& forall|i: int| 0 <= i < visits_new.len() ==> (#[trigger] probes_new[i]).0 == entries[i]
    &&& forall|i: int|
        0 <= i < visits_new.len() ==> (#[trigger] visits_new[i]).0 == classify_spec(
            entries[i],
            probes_new[i].1,
        )
    &&& forall|i: int|
        0 <= i < visits_new.len() - 1 ==> (#[trigger] visits_new[i]).1
            == CallbackProgression::Continue
    &&& visits_new.len() < entries.len() ==> visits_new.len() > 0 && visits_new.last().1
        == CallbackProgression::Stop
}

/// Scans the node directory of `domain`: lists it, probes every entry,
/// classifies each, and hands the classifications to `visitor` until it
/// answers `Stop` or the entries are exhausted.  An early stop is success.
/// The scan fails only when the directory listing fails, with that
/// failure; states already delivered stay delivered — a scan is a
/// read-only, best-effort census, not a transaction.
pub fn list<R: NodeRegistry, V: NodeVisitor>(
    domain: &Config,
    registry: &mut R,
    visitor: &mut V,
) -> (res: Result<(), NodeListFailure>)
    ensures
        final(registry).listings().len() == old(registry).listings().len() + 1,
        final(registry).listings().take(old(registry).listings().len() as int) == old(
            registry,
        ).listings(),
        final(registry).probes().take(old(registry).probes().len() as int) == old(
            registry,
        ).probes(),
        final(visitor).visited().take(old(visitor).visited().len() as int) == old(
            visitor,
        ).visited(),
        match final(registry).listings().last() {
            Ok(entries) => res == Ok::<(), NodeListFailure>(()) && scan_visits(
                entries,
                final(registry).probes().skip(old(registry).probes().len() as int),
                final(visitor).visited().skip(old(visitor).visited().len() as int),
            ),
            Err(e) => res == Err::<(), NodeListFailure>(e) && final(registry).probes() == old(
                registry,
            ).probes() && final(visitor).visited() == old(visitor).visited(),
        },
{
    let r = registry.list_identifiers(domain);
    proof {
        assert(registry.listings().take(old(registry).listings().len() as int) =~= old(
            registry,
        ).listings());
    }
    match r {
        Err(e) => {
            proof {
                assert(registry.probes().take(old(registry).probes().len() as int) =~= registry
                    .probes());
                assert(visitor.visited().take(old(visitor).visited().len() as int) =~= visitor
                    .visited());
            }
            Err(e)
        },
        Ok(entries) => {
            let ghost entry_views = id_views(entries@);
            let mut i: usize = 0;
            let mut stopped = false;
            while i < entries.len() && !stopped
                invariant
                    i <= entries@.len(),
                    registry.listings() == old(registry).listings().push(
                        Ok::<Seq<Seq<u8>>, NodeListFailure>(entry_views),
                    ),
                    entry_views == id_views(entries@),
                    registry.probes().len() == old(registry).probes().len() + i,
                    registry.probes().take(old(registry).probes().len() as int) == old(
                        registry,
                    ).probes(),
                    visitor.visited().len() == old(visitor).visited().len() + i,
                    visitor.visited().take(old(visitor).visited().len() as int) == old(
                        visitor,
                    ).visited(),
                    forall|j: int|
                        0 <= j < i ==> (#[trigger] registry.probes()[old(registry).probes().len()
                            + j]).0 == entry_views[j],
                    forall|j: int|
                        0 <= j < i ==> (#[trigger] visitor.visited()[old(visitor).visited().len()
                            + j]).0 == classify_spec(
                            entry_views[j],
                            registry.probes()[old(registry).probes().len() + j].1,
                        ),
                    forall|j: int|
                        0 <= j < i - 1 ==> (#[trigger] visitor.visited()[old(
                            visitor,
                        ).visited().len() + j]).1 == CallbackProgression::Continue,
                    !stopped ==> forall|j: int|
                        0 <= j < i ==> (#[trigger] visitor.visited()[old(visitor).visited().len()
                            + j]).1 == CallbackProgression::Continue,
                    stopped ==> i > 0 && visitor.visited().last().1 == CallbackProgression::Stop,
                decreases entries@.len() - i,
            {
                let id = entries[i].clone();
                let pr = registry.probe(&id);
                let state = classify(id, pr);
                let p = visitor.visit(state);
                if p == CallbackProgression::Stop {
                    stopped = true;
                }
                proof {
                    assert(registry.probes().take(old(registry).probes().len() as int) =~= old(
                        registry,
                    ).probes());
                    assert(visitor.visited().take(old(visitor).visited().len() as int) =~= old(
                        visitor,
                    ).visited());
                    assert(entry_views[i as int] == entries@[i as int]@);
                }
                i += 1;
            }
            proof {
                let pnew = registry.probes().skip(old(registry).probes().len() as int);
                let vnew = visitor.visited().skip(old(visitor).visited().len() as int);
                assert(pnew.len() == i as int);
                assert(vnew.len() == i as int);
                assert forall|j: int| 0 <= j < vnew.len() implies (#[trigger] pnew[j]).0
                    == entry_views[j] && vnew[j].0 == classify_spec(entry_views[j], pnew[j].1) by {
                    assert(pnew[j] == registry.probes()[old(registry).probes().len() + j]);
                    assert(vnew[j] == visitor.visited()[old(visitor).visited().len() + j]);
                };
                assert forall|j: int| 0 <= j < vnew.len() - 1 implies (#[trigger] vnew[j]).1
                    == CallbackProgression::Continue by {
                    assert(vnew[j] == visitor.visited()[old(visitor).visited().len() + j]);
                };
                if (i as int) < entry_views.len() {
                    assert(stopped);
                    assert(vnew.last() == visitor.visited().last());
                }
                assert(scan_visits(entry_views, pnew, vnew));
            }
            Ok(())
        },
    }
}

} // verus!
