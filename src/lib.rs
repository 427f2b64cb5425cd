//! Artifact collection and packaging for plugin builds: platform
//! resolution, platform-tagged file naming, the plan of the parallel copy
//! stage and the aggregation of its outcomes, the sequential packaging of
//! each crate, and the workspace queries those stages rest on.

pub mod layout;
pub mod platform;
pub mod crate_set;
pub mod copy_stage;
pub mod package_stage;
pub mod cargo;
pub mod upgrade_deps;
pub mod lemmas;
