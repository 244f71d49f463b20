//! A keyboard-shortcut keymap library: it parses textual key-chord
//! descriptions (`"ctrl+shift+k"`, `"ctrl+k ctrl+s"`) into a structured
//! modifier-set + key representation, formats them back to canonical text,
//! and derives cross-platform bindings by mirroring every Control-modified
//! binding as a Command-modified one while disabling the original.

pub mod args;
pub mod binding;
pub mod keys;
pub mod laws;
pub mod parse;
pub mod remap;
pub mod modifiers;
pub mod split;
pub mod text;

pub use args::{ArgEntry, ArgValue};
pub use binding::KeyBinding;
pub use keys::{anykey, Key, KeyRule};
pub use modifiers::{ModSet, MODIFIER_COMMAND, MODIFIER_CONTROL, MODIFIER_OPTION, MODIFIER_SHIFT};
pub use parse::{parse_key_sequence, parse_one_key};
pub use remap::{map_ctrl_binding, map_ctrl_binding_with, map_ctrl_to_cmd, NonControlPolicy};
