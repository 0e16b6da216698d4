//! Multi-repository workspace lifecycle: naming rules, path derivation,
//! worktree attach planning, and the create / add / remove transactions
//! whose side effects are carried out by the caller.

pub mod text;
pub mod error;
pub mod identity;
pub mod config;
pub mod mirror;
pub mod workspace;
pub mod attach;
pub mod lifecycle;
pub mod remove;
pub mod output;
pub mod status;
pub mod log;
pub mod agentmd;
pub mod fetch;
pub mod completion;
