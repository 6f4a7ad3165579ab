//! Terminal sessions: their processes, their tabs, and where they are shown.

pub mod clusters;
pub mod commands;
pub mod detach;
pub mod environment;
pub mod notebook;
pub mod pty;
pub mod tabs;
pub mod types;
