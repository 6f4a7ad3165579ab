//! The decisions behind the RustConn window: terminal sessions and their tabs, launching external
//! viewers, secret-backend detection, dialogs, and the small rules that hold them together.
//!
//! Nothing here draws, spawns or reads a file. Every function works on plain values, says in its
//! contract what it returns, and is proved to do so; the program around the library performs the
//! work and hands the outcome back.

pub mod automation;
pub mod clock;
pub mod detached_window;
pub mod dialogs;
pub mod drawing;
pub mod embedded_toolbar_overflow;
pub mod i18n;
pub mod icon_render;
pub mod ids;
pub mod launcher;
pub mod renderer;
pub mod scrub;
pub mod secrets;
pub mod sorting;
pub mod startup_config;
pub mod terminal;
pub mod text;
pub mod vault_miss_cache;
