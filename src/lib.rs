//! Interpretation of a version-control tool's textual output: branch and
//! commit listings, working-tree status, divergence from upstream and the
//! per-path diff decision procedure.

pub mod branch;
pub mod command;
pub mod commit;
pub mod diff;
pub mod image;
pub mod process;
pub mod remote;
pub mod status;
pub mod text;
