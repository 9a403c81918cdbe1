//! One verb set over git worktrees and jj workspaces.
//!
//! The library does no I/O: it says what is to be done outside and takes the
//! replies as arguments.

pub mod add;
pub mod batch;
pub mod commands;
pub mod config;
pub mod details;
pub mod discovery;
pub mod hooks;
pub mod landed;
pub mod laws;
pub mod layout;
pub mod listing;
pub mod opened;
pub mod order;
pub mod path_display;
pub mod paths;
pub mod picker;
pub mod pr_cache;
pub mod process;
pub mod removal;
pub mod render;
pub mod report;
pub mod shell_init;
pub mod strings;
pub mod style;
pub mod sweep;
pub mod sweeping;
pub mod text;
pub mod updater;
mod user_dirs;
pub mod vcs;
