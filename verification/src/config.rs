//! The configuration domain a set of nodes and services is registered in.

use vstd::prelude::*;
use crate::file_name::FileName;
use crate::path_name::PathName;

verus! {

/// The mathematical content of a `Config`: the bytes of its three names.
pub struct ConfigView {
    pub root_path: Seq<u8>,
    pub node_dir: Seq<u8>,
    pub prefix: Seq<u8>,
}

/// Identifies where the registries of a domain live: the root under which
/// all resources are placed, the directory that holds one entry per
/// registered node, and the prefix every resource of the domain carries.
/// A config is established when a node is brought up and read-only
/// afterwards; many nodes may share one.
#[derive(Debug)]
pub struct Config {
    root_path: PathName,
    node_dir: PathName,
    prefix: FileName,
}

impl View for Config {
    type V = ConfigView;

    closed spec fn view(&self) -> ConfigView {
        ConfigView {
            root_path: self.root_path@,
            node_dir: self.node_dir@,
            prefix: self.prefix@,
        }
    }
}

impl Config {
    /// Assembles a domain description from its three names.
    pub fn new(root_path: PathName, node_dir: PathName, prefix: FileName) -> (r: Config)
        ensures
            r@.root_path == root_path@,
            r@.node_dir == node_dir@,
            r@.prefix == prefix@,
    {
        Config { root_path, node_dir, prefix }
    }

    /// The root under which every resource of the domain is placed.
    pub fn root_path(&self) -> (r: &PathName)
        ensures
            r@ == self@.root_path,
    {
        &self.root_path
    }

    /// The directory holding one entry per registered node.
    pub fn node_dir(&self) -> (r: &PathName)
        ensures
            r@ == self@.node_dir,
    {
        &self.node_dir
    }

    /// The prefix every resource of the domain carries.
    pub fn prefix(&self) -> (r: &FileName)
        ensures
            r@ == self@.prefix,
    {
        &self.prefix
    }
}

impl Clone for Config {
    fn clone(&self) -> (r: Self)
        ensures
            r@ == self@,
    {
        Config {
            root_path: self.root_path.clone(),
            node_dir: self.node_dir.clone(),
            prefix: self.prefix.clone(),
        }
    }
}

} // verus!
