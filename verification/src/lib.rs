//! Verified core logic of the oretachi terminal and worktree manager.

pub mod text;
pub mod cli_args;
pub mod main_thread_watch;
pub mod process_utils;
pub mod notify;
pub mod settings;
pub mod workgroups;
pub mod errors;
pub mod worktrees;
pub mod targets;
pub mod grants;
pub mod artifacts;
pub mod json;
pub mod artifact_calls;
pub mod hooks;
pub mod notify_source;
pub mod server;
pub mod terminal;
pub mod hang_watch;
pub mod import;
pub mod subscribers;
pub mod notifications;
pub mod worktree_tools;
pub mod tasks;
pub mod inbox;
pub mod hook_context;
pub mod platform_paths;
pub mod prompt_answer;
