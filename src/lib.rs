//! Clipboard text transformer: a verified engine of text transformations,
//! recipes that chain them, and the decision logic of a clipboard monitor.

pub mod text;
pub mod unicode;
pub mod pattern;
pub mod transformers;
pub mod recipe;
pub mod clipboard;
pub mod hotkeys;
pub mod config;
pub mod dashboard;
pub mod ipc;
pub mod tray;

pub use clipboard::ClipboardManager;
pub use config::Config;
pub use recipe::{Recipe, RecipeManager};
