//! Assembly of a reproducible, multi-component local test environment for an
//! inter-chain relay setup.
//!
//! A deployment specification lists module directories (chain nodes, at most
//! one relay component, and auxiliary services).  The library validates the
//! specification, plans the collision-free materialization of each module
//! directory, rewrites container-descriptor service identifiers for
//! duplicated modules, and synthesizes the chain registry and the relay
//! configuration document from per-chain template fragments.
//!
//! All filesystem and process work (reading the specification file, copying
//! directory trees, invoking the container orchestrator) lives outside this
//! crate; the functions here compute and decide, over plain values.

use vstd::prelude::*;

pub mod config;
pub mod error;
pub mod strutil;
pub mod validate;
pub mod materialize;
pub mod compose;
pub mod synth;

verus! {

/// Arguments of the deployment-creation command.
pub struct CreateArgs {
    /// Path to the deployment specification document.
    pub config_file: String,
    /// Directory where the deployment will be created.
    pub deployment_dir: String,
}

/// Arguments of the commands that act on an existing deployment.
pub struct DeploymentArgs {
    /// Directory of the deployment.
    pub deployment_dir: String,
}

/// Arguments of the database-dump command.
pub struct DumpDbArgs {
    /// Output file for the database dump.
    pub output_file: String,
}

} // verus!
