//! bootmux: run one tmuxinator-style project in tmux, Herdr, or zellij.
//!
//! This crate holds the verified core: the text formats bootmux reads and
//! writes (picker bindings, settings documents, tmux layout strings, KDL
//! strings, shell words), backend selection, the neutral pane layout model,
//! and the Herdr/zellij ownership and version rules.

pub mod text;
pub mod env;
pub mod shellwords;
pub mod layout;
pub mod pane_chain;
pub mod zellij_layout;
pub mod settings;
pub mod bindings;
pub mod util;
pub mod process;
pub mod herdr;
pub mod herdr_error;
pub mod zellij;
pub mod herdr_backend;
pub mod project;
pub mod settings_roundtrip;
pub mod yaml_ext;
pub mod project_spec;
pub mod template;
pub mod zellij_backend;
pub mod tmux;
pub mod pane;
pub mod window;
pub mod script;
pub mod config;
pub mod commands;
pub mod herdr_plan;
pub mod session_project;
