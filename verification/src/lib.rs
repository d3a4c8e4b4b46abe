//! Conservative auto-save and push engine for git work trees.
use vstd::prelude::*;

pub mod autocommit;
pub mod cleanup;
pub mod cli;
pub mod clock;
pub mod commit;
pub mod daemon;
pub mod disk;
pub mod flow;
pub mod git_ops;
pub mod json;
pub mod layout_laws;
pub mod pass;
pub mod policy;
pub mod push;
pub mod registry;
pub mod replay;
pub mod report_laws;
pub mod safety;
pub mod snapshot;
pub mod stash;
pub mod state;
pub mod status;
pub mod store;
pub mod talk_laws;
pub mod text;
pub mod text_laws;
pub mod view_laws;
pub mod visit_laws;

pub use crate::state::StateRoot;

verus! {

/// The state directory, below the home directory.
pub const DEFAULT_STATE_ROOT_SUFFIX: &'static str = ".airlock/v2";

/// Seconds between two autocommit passes.
pub const AUTOCOMMIT_INTERVAL: u64 = 900;

/// Seconds between two cleanup passes.
pub const CLEANUP_INTERVAL: u64 = 28_800;

/// The author of commits, unless the environment names another.
pub const AGENT_AUTHOR_NAME: &'static str = "Airlock Bot";

/// The mail address of the author of commits, unless the environment names another.
pub const AGENT_AUTHOR_EMAIL: &'static str = "airlock@phenoforge.local";

} // verus!
