//! Launcher data, alias handling, launch counters and key bindings of the
//! Sherlock application launcher, with their contracts.
pub mod errors;
pub mod loader;
pub mod table;
pub mod text;
pub mod ui;
