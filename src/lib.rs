//! Window management for a multi-window desktop application.
//!
//! Decides which window hosts a requested file, folder or empty workspace,
//! and keeps the state needed to restore a session: window states, backup
//! staging locations and the recently opened history.

pub mod error;
pub mod event;
pub mod windows;
mod text;

pub use error::Error;
pub use windows::{OpenConfiguration, WindowOpenable, WindowOptions, WindowsAPI, WindowsSettings};
