//! The classified view of one registered node.

use vstd::prelude::*;
use crate::config::{Config, ConfigView};
use crate::file_name::FileName;
use crate::node_name::NodeName;

verus! {

/// What a visitor answers after seeing one classified node: go on with the
/// remaining entries, or end the scan early.  Ending early is a
/// caller-directed short-circuit, not an error.
#[derive(Clone, Copy, Debug, PartialEq, Eq, Structural)]
pub enum CallbackProgression {
    Continue,
    Stop,
}

/// Why a whole scan of a node directory failed.  States already delivered
/// to the visitor before the failure remain valid observations.
#[derive(Clone, Copy, Debug, PartialEq, Eq, Structural)]
pub enum NodeListFailure {
    /// The node directory itself could not be opened.
    InsufficientPermissions,
    /// A signal arrived mid-scan.
    Interrupt,
    /// Any other unexpected condition.
    InternalError,
}

/// The mathematical content of `NodeDetails`.
pub struct NodeDetailsView {
    pub name: Seq<u8>,
    pub config: ConfigView,
}

/// What a node's readable details resource holds: the name the node
/// presents and a snapshot of the configuration it was registered under.
#[derive(Debug)]
pub struct NodeDetails {
    pub name: NodeName,
    pub config: Config,
}

impl View for NodeDetails {
    type V = NodeDetailsView;

    open spec fn view(&self) -> NodeDetailsView {
        NodeDetailsView { name: self.name@, config: self.config@ }
    }
}

impl NodeDetails {
    /// Bundles a node's name with the configuration it registered under.
    pub fn new(name: NodeName, config: Config) -> (r: NodeDetails)
        ensures
            r@.name == name@,
            r@.config == config@,
    {
        NodeDetails { name, config }
    }
}

impl Clone for NodeDetails {
    fn clone(&self) -> (r: Self)
        ensures
            r@ == self@,
    {
        NodeDetails { name: self.name.clone(), config: self.config.clone() }
    }
}

/// The mathematical content of a `ProbeResult`.
pub struct ProbeResultView {
    pub resource_exists: bool,
    pub locked_by_live_process: bool,
    pub details_readable: bool,
    pub details: Option<NodeDetailsView>,
}

impl ProbeResultView {
    /// A probe answer is coherent when details are only delivered where the
    /// details resource was readable.
    pub open spec fn wf(self) -> bool {
        self.details is Some ==> self.details_readable
    }
}

/// What the resource probe reports about one identifier: whether any
/// resource describes it at all, whether its liveness resource is locked by
/// a running process, whether its resources could be opened, and the
/// details that could be read.  Absent details under `details_readable`
/// mean the details resource does not exist (yet); `details_readable`
/// false means a resource exists but could not be opened.
#[derive(Debug)]
pub struct ProbeResult {
    pub resource_exists: bool,
    pub locked_by_live_process: bool,
    pub details_readable: bool,
    pub details: Option<NodeDetails>,
}

impl View for ProbeResult {
    type V = ProbeResultView;

    open spec fn view(&self) -> ProbeResultView {
        ProbeResultView {
            resource_exists: self.resource_exists,
            locked_by_live_process: self.locked_by_live_process,
            details_readable: self.details_readable,
            details: match self.details {
                Some(d) => Some(d@),
                None => None,
            },
        }
    }
}

impl Clone for ProbeResult {
    fn clone(&self) -> (r: Self)
        ensures
            r@ == self@,
    {
        ProbeResult {
            resource_exists: self.resource_exists,
            locked_by_live_process: self.locked_by_live_process,
            details_readable: self.details_readable,
            details: match &self.details {
                Some(d) => Some(d.clone()),
                None => None,
            },
        }
    }
}

/// The mathematical content of a `NodeState`.
pub enum NodeStateView {
    Alive { id: Seq<u8>, details: Option<NodeDetailsView> },
    Dead { id: Seq<u8>, details: Option<NodeDetailsView> },
    Inaccessible { id: Seq<u8> },
    Undefined { id: Seq<u8> },
}

/// The classification of one registered node, produced fresh on every
/// scan.  Details are present only where the details resource could be
/// read; `Inaccessible` and `Undefined` carry none by definition.
#[derive(Debug)]
pub enum NodeState {
    /// The liveness resource is locked by a running process.
    Alive { id: FileName, details: Option<NodeDetails> },
    /// The liveness resource exists, but no running process holds its lock:
    /// the owner crashed.
    Dead { id: FileName, details: Option<NodeDetails> },
    /// Resources describing the node exist but could not be opened.
    Inaccessible { id: FileName },
    /// The identifier was observed, but nothing describes it any more; a
    /// race with concurrent creation or deletion, not an error.
    Undefined { id: FileName },
}

impl View for NodeState {
    type V = NodeStateView;

    open spec fn view(&self) -> NodeStateView {
        match self {
            NodeState::Alive { id, details } => NodeStateView::Alive {
                id: id@,
                details: match details {
                    Some(d) => Some(d@),
                    None => None,
                },
            },
            NodeState::Dead { id, details } => NodeStateView::Dead {
                id: id@,
                details: match details {
                    Some(d) => Some(d@),
                    None => None,
                },
            },
            NodeState::Inaccessible { id } => NodeStateView::Inaccessible { id: id@ },
            NodeState::Undefined { id } => NodeStateView::Undefined { id: id@ },
        }
    }
}

/// The classification policy, on views: no resource at all is `Undefined`;
/// an unopenable resource is `Inaccessible`; otherwise the lock decides
/// between `Alive` and `Dead`, with whatever details could be read.
pub open spec fn classify_spec(id: Seq<u8>, p: ProbeResultView) -> NodeStateView {
    if !p.resource_exists {
        NodeStateView::Undefined { id }
    } else if !p.details_readable {
        NodeStateView::Inaccessible { id }
    } else if p.locked_by_live_process {
        NodeStateView::Alive { id, details: p.details }
    } else {
        NodeStateView::Dead { id, details: p.details }
    }
}

/// Classifies one directory entry from what the probe reported about it.
pub fn classify(id: FileName, probe: ProbeResult) -> (s: NodeState)
    ensures
        s@ == classify_spec(id@, probe@),
{
    if !probe.resource_exists {
        NodeState::Undefined { id }
    } else if !probe.details_readable {
        NodeState::Inaccessible { id }
    } else if probe.locked_by_live_process {
        NodeState::Alive { id, details: probe.details }
    } else {
        NodeState::Dead { id, details: probe.details }
    }
}

} // verus!
