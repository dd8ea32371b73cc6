//! Verified core of a desktop messaging shell: persisted settings, the
//! decisions of the download commands, collision-free download names and the
//! taskbar badge.

pub mod badge;
pub mod commands;
pub mod naming;
pub mod settings;
pub mod state;
