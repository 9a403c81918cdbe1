//! What the operations are for, stated of what goes in and what comes out.

pub mod adding;
pub mod display;
pub mod files;
pub mod hooking;
pub mod landing;
pub mod listing_git;
pub mod listing_jj;
pub mod origins;
pub mod picking;
pub mod programs;
pub mod projects;
pub mod removing_jj;
pub mod searching;
pub mod settings;
pub mod sweeps;
pub mod texts;
pub mod walking;
