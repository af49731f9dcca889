//! Release bookkeeping for cargo workspaces kept in git: which branches a
//! release may be cut from, what the release commit says, which tags are
//! created, and in which order the git commands run.

pub mod args;
pub mod branch;
pub mod git;
pub mod laws;
pub mod outside;
pub mod release;
pub mod release_laws;
pub mod text;
