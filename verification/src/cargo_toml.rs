//! What the orchestrator reads from manifests: the member list of a
//! workspace, and the name and build matrix of a package.

pub mod package;
pub mod workspace;
