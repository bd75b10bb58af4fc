//! The core of a terminal text editor: which documents are open, how they are laid out, which one
//! is being edited, and what every event, command and configuration value does to that state.
//!
//! Everything that talks to the terminal, the disk, the clock or a script stands outside this
//! library. Its outcomes come in as plain values, and what is to be done next goes out as one.

pub mod config;
pub mod container;
pub mod contents_laws;
pub mod directory;
pub mod document;
pub mod editor;
pub mod editor_laws;
pub mod error;
pub mod event_laws;
pub mod events;
pub mod highlight;
pub mod input;
pub mod laws;
pub mod layout;
pub mod layout_laws;
pub mod opening;
pub mod saving;
pub mod ui;
