//! Verified core of a keyboard-shortcut configuration pane.
//!
//! The library models key bindings (modifier flags plus an optional key
//! symbol), a layered shortcuts table (system defaults overlaid by user
//! customizations), and the controller that reconciles the two: committing,
//! replacing, deleting and resetting bindings while keeping the in-memory
//! rows an exact reflection of the persisted tables.

pub mod action;
pub mod arena;
pub mod binding;
pub mod grammar;
pub mod keys;
pub mod keysym;
pub mod laws;
pub mod model;
pub mod shortcuts;
pub mod store;
pub mod update;
pub mod viewdata;

pub use action::Action;
pub use binding::Binding;
pub use keys::Modifiers;
pub use model::{BindingId, Model, ShortcutBinding, ShortcutModel};
pub use shortcuts::Shortcuts;
pub use update::{Effect, ShortcutMessage};
