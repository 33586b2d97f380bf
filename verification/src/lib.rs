//! Verified core of the Morrows work-coordination system.

pub mod auth;
pub mod completion;
pub mod codex;
pub mod collab;
pub mod company_mcp;
pub mod dispatch;
pub mod domain;
pub mod fleet;
pub mod ids;
pub mod json;
pub mod launch;
pub mod launcher;
pub mod lsm;
pub mod mcp;
pub mod memory_search;
pub mod memory_worktree;
pub mod operator_auth;
pub mod records;
pub mod run_control;
pub mod session_runtime;
pub mod startup;
pub mod text;
