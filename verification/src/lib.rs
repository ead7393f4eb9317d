//! A single-user secrets vault: a two-level tree of named categories and
//! subcategories, the editing session that guards it, and the modal dialog
//! flow that gates every change.

pub mod app;
pub mod error;
pub mod file;
pub mod names;
pub mod password_utils;
pub mod settings;
pub mod states;
pub mod text_buffer;
pub mod tree;
