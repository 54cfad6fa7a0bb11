//! Clipboard history with pinning, deduplication and paste-back suppression,
//! together with the plan that a paste keystroke injection follows.

pub mod history;
pub mod injection;
pub mod item;
pub mod laws;
pub mod manager;
pub mod outside;
pub mod paste;
pub mod sequences;
pub mod text;
