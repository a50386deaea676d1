//! Verified core of a Neovim-backed Vim mode for the Godot script editor.
//!
//! The library holds the editor-independent logic: key resolution, the
//! text motions and edits performed on the editor's lines, Ex command
//! parsing, the decoding of Neovim's msgpack notifications, and the
//! framing used to talk to Godot's language server.

pub mod chars;
pub mod cmdline;
pub mod commands;
pub mod dispatch;
pub mod editing;
pub mod events;
pub mod exops;
pub mod filetype;
pub mod handler;
pub mod help;
pub mod input;
pub mod jumps;
pub mod keymap;
pub mod keys;
pub mod lsp;
pub mod modes;
pub mod motions;
pub mod msgpack;
pub mod normal;
pub mod numbers;
pub mod report;
pub mod rpc;
pub mod search;
pub mod status;
pub mod store;
pub mod text;
pub mod unicode;
pub mod uri;
pub mod version;
