//! Identity and discovery layer of a shared-memory communication middleware.
//!
//! Every participant (a node) and every communication channel (a service) is
//! named.  Names are bounded, validated, normalizable byte strings that can be
//! embedded in shared memory and file-system paths.  On top of naming sits
//! node discovery: a census over a configuration domain's node directory that
//! classifies every registered node as alive, dead, inaccessible or
//! undefined.  Constructing a communication endpoint starts from a generic
//! service builder that is irreversibly specialized into exactly one
//! messaging pattern.

pub mod config;
pub mod file_name;
pub mod local_registry;
pub mod node_name;
pub mod node_registry;
pub mod node_state;
pub mod path_name;
pub mod port_factory;
pub mod semantic_string;
pub mod service_builder;
pub mod service_name;
pub mod tag;
