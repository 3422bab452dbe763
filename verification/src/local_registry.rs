//! An intra-process node registry backend, and a collecting visitor.
//!
//! The backend keeps the whole registry in ordinary memory: a catalog of
//! identifiers with the probe report each would receive, and optionally a
//! denial that makes the directory listing itself fail.  It implements the
//! scanner's collaborator contract exactly, so a scan over it is governed
//! by the same specification as a scan over any other backend.

use vstd::prelude::*;
use crate::config::Config;
use crate::file_name::FileName;
use crate::node_registry::{NodeRegistry, NodeVisitor, id_views};
use crate::node_state::{
    CallbackProgression, NodeListFailure, NodeState, NodeStateView, ProbeResult, ProbeResultView,
};
use crate::semantic_string::{SemanticString, bytes_equal};

verus! {

/// A visitor that keeps every state it is handed and answers `Continue`
/// until it has collected `limit` states, then `Stop`.
pub struct NodeStateCollector {
    states: Vec<NodeState>,
    limit: usize,
}

impl NodeStateCollector {
    /// A collector that ends the scan once it holds `limit` states.
    pub fn new(limit: usize) -> (r: Self)
        ensures
            r.visited() == Seq::<(NodeStateView, CallbackProgression)>::empty(),
    {
        let r = NodeStateCollector { states: Vec::new(), limit };
        proof {
            assert(r.visited() =~= Seq::<(NodeStateView, CallbackProgression)>::empty());
        }
        r
    }

    /// The states collected so far, in visiting order.
    pub fn states(&self) -> (r: &Vec<NodeState>)
        ensures
            r@.len() == self.visited().len(),
            forall|i: int| 0 <= i < r@.len() ==> (#[trigger] r@[i])@ == self.visited()[i].0,
    {
        &self.states
    }
}

impl NodeVisitor for NodeStateCollector {
    closed spec fn visited(&self) -> Seq<(NodeStateView, CallbackProgression)> {
        Seq::new(
            self.states@.len(),
            |i: int|
                (
                    self.states@[i]@,
                    if i + 1 >= self.limit {
                        CallbackProgression::Stop
                    } else {
                        CallbackProgression::Continue
                    },
                ),
        )
    }

    fn visit(&mut self, state: NodeState) -> (p: CallbackProgression) {
        self.states.push(state);
        let p = if self.states.len() >= self.limit {
            CallbackProgression::Stop
        } else {
            CallbackProgression::Continue
        };
        proof {
            assert(self.visited() =~= old(self).visited().push((state@, p)));
        }
        p
    }
}

/// The report `LocalNodeRegistry::probe` gives for an identifier its
/// catalog does not hold: no resource describes it.
pub open spec fn absent_probe() -> ProbeResultView {
    ProbeResultView {
        resource_exists: false,
        locked_by_live_process: false,
        details_readable: false,
        details: None,
    }
}

/// A catalog report, made coherent: details are withheld where the details
/// resource is not readable.
pub open spec fn sanitized(p: ProbeResultView) -> ProbeResultView {
    if p.details_readable {
        p
    } else {
        ProbeResultView { details: None, ..p }
    }
}

/// The first catalog report registered under `id`, if any.
pub open spec fn lookup(cat: Seq<(Seq<u8>, ProbeResultView)>, id: Seq<u8>) -> Option<
    ProbeResultView,
>
    decreases cat.len(),
{
    if cat.len() == 0 {
        None
    } else if cat.first().0 == id {
        Some(cat.first().1)
    } else {
        lookup(cat.drop_first(), id)
    }
}

/// What `LocalNodeRegistry::probe` answers for `id` over catalog `cat`.
pub open spec fn probe_answer(cat: Seq<(Seq<u8>, ProbeResultView)>, id: Seq<u8>) -> ProbeResultView {
    match lookup(cat, id) {
        Some(p) => sanitized(p),
        None => absent_probe(),
    }
}

/// A node registry held entirely in this process's memory.
pub struct LocalNodeRegistry {
    entries: Vec<(FileName, ProbeResult)>,
    denial: Option<NodeListFailure>,
    listing_log: Ghost<Seq<Result<Seq<Seq<u8>>, NodeListFailure>>>,
    probe_log: Ghost<Seq<(Seq<u8>, ProbeResultView)>>,
}

impl LocalNodeRegistry {
    /// The registry's catalog: each registered identifier with the report
    /// its probe would be based on, in registration order.
    pub closed spec fn catalog(&self) -> Seq<(Seq<u8>, ProbeResultView)> {
        Seq::new(self.entries@.len(), |i: int| (self.entries@[i].0@, self.entries@[i].1@))
    }

    /// The identifiers of the catalog, in registration order.
    pub open spec fn catalog_ids(&self) -> Seq<Seq<u8>> {
        Seq::new(self.catalog().len(), |i: int| self.catalog()[i].0)
    }

    /// The configured listing denial, if any.
    pub closed spec fn denial_view(&self) -> Option<NodeListFailure> {
        self.denial
    }

    /// An empty, accessible registry.
    pub fn new() -> (r: Self)
        ensures
            r.listings() == Seq::<Result<Seq<Seq<u8>>, NodeListFailure>>::empty(),
            r.probes() == Seq::<(Seq<u8>, ProbeResultView)>::empty(),
            r.catalog() == Seq::<(Seq<u8>, ProbeResultView)>::empty(),
            r.denial_view() is None,
    {
        let r = LocalNodeRegistry {
            entries: Vec::new(),
            denial: None,
            listing_log: Ghost(Seq::empty()),
            probe_log: Ghost(Seq::empty()),
        };
        proof {
            assert(r.catalog() =~= Seq::<(Seq<u8>, ProbeResultView)>::empty());
        }
        r
    }

    /// Registers `id` with the report a probe of it will be based on.
    pub fn register(&mut self, id: FileName, probe: ProbeResult)
        ensures
            final(self).catalog() == old(self).catalog().push((id@, probe@)),
            final(self).denial_view() == old(self).denial_view(),
            final(self).listings() == old(self).listings(),
            final(self).probes() == old(self).probes(),
    {
        self.entries.push((id, probe));
        proof {
            assert(self.catalog() =~= old(self).catalog().push((id@, probe@)));
        }
    }

    /// Makes every later directory listing fail with `failure`, as a
    /// domain whose node directory cannot be opened would.
    pub fn deny(&mut self, failure: NodeListFailure)
        ensures
            final(self).denial_view() == Some(failure),
            final(self).catalog() == old(self).catalog(),
            final(self).listings() == old(self).listings(),
            final(self).probes() == old(self).probes(),
    {
        self.denial = Some(failure);
    }
}

impl NodeRegistry for LocalNodeRegistry {
    closed spec fn listings(&self) -> Seq<Result<Seq<Seq<u8>>, NodeListFailure>> {
        self.listing_log@
    }

    closed spec fn probes(&self) -> Seq<(Seq<u8>, ProbeResultView)> {
        self.probe_log@
    }

    fn list_identifiers(&mut self, domain: &Config) -> (r: Result<Vec<FileName>, NodeListFailure>)
        ensures
            final(self).catalog() == old(self).catalog(),
            final(self).denial_view() == old(self).denial_view(),
            match old(self).denial_view() {
                Some(e) => r matches Err(f) && f == e,
                None => r matches Ok(v) && id_views(v@) == old(self).catalog_ids(),
            },
    {
        match self.denial {
            Some(e) => {
                proof {
                    self.listing_log@ = self.listing_log@.push(Err(e));
                }
                Err(e)
            },
            None => {
                let n = self.entries.len();
                let mut out: Vec<FileName> = Vec::new();
                let mut i: usize = 0;
                while i < n
                    invariant
                        i <= n == self.entries@.len(),
                        self == old(self),
                        out@.len() == i as int,
                        forall|j: int| 0 <= j < i ==> (#[trigger] out@[j])@ == self.catalog()[j].0,
                    decreases n - i,
                {
                    let id = self.entries[i].0.clone();
                    out.push(id);
                    i += 1;
                }
                proof {
                    assert(id_views(out@) =~= self.catalog_ids());
                    self.listing_log@ = self.listing_log@.push(Ok(id_views(out@)));
                }
                Ok(out)
            },
        }
    }

    fn probe(&mut self, id: &FileName) -> (r: ProbeResult)
        ensures
            final(self).catalog() == old(self).catalog(),
            final(self).denial_view() == old(self).denial_view(),
            r@ == probe_answer(old(self).catalog(), id@),
    {
        let ghost cat = self.catalog();
        let n = self.entries.len();
        let mut result = ProbeResult {
            resource_exists: false,
            locked_by_live_process: false,
            details_readable: false,
            details: None,
        };
        let mut found = false;
        let mut i: usize = 0;
        proof {
            assert(cat.skip(0) =~= cat);
        }
        while i < n && !found
            invariant
                i <= n == self.entries@.len(),
                self == old(self),
                cat == self.catalog(),
                !found ==> lookup(cat, id@) == lookup(cat.skip(i as int), id@),
                !found ==> result@ == absent_probe(),
                found ==> result@ == probe_answer(cat, id@),
                found ==> result@.wf(),
            decreases n - i,
        {
            proof {
                assert(cat.skip(i as int).first() == cat[i as int]);
                assert(cat.skip(i as int).drop_first() =~= cat.skip(i + 1));
            }
            let entry_id = &self.entries[i].0;
            if bytes_equal(id.as_bytes(), entry_id.as_bytes()) {
                let p = self.entries[i].1.clone();
                let keep_details = p.details_readable;
                result = ProbeResult {
                    resource_exists: p.resource_exists,
                    locked_by_live_process: p.locked_by_live_process,
                    details_readable: p.details_readable,
                    details: if keep_details {
                        p.details
                    } else {
                        None
                    },
                };
                proof {
                    assert(lookup(cat.skip(i as int), id@) == Some(cat[i as int].1));
                    assert(result@ == sanitized(cat[i as int].1));
                }
                found = true;
            }
            i += 1;
        }
        proof {
            if !found {
                assert(cat.skip(n as int) =~= Seq::<(Seq<u8>, ProbeResultView)>::empty());
                assert(lookup(cat, id@) is None);
            }
            self.probe_log@ = self.probe_log@.push((id@, result@));
        }
        result
    }
}

} // verus!
