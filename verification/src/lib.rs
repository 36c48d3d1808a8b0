//! Verified core of a keyboard-driven file explorer: navigation history,
//! undo/redo bookkeeping, selection, sorting, git status parsing, search
//! result handling, configuration parsing and command-line handling.
pub mod assets;
pub mod bulk;
pub mod cli;
pub mod clipboard;
pub mod columns;
pub mod config_docs;
pub mod confirm;
pub mod disk;
pub mod disk_usage;
pub mod entry;
pub mod git;
pub mod history;
pub mod json;
pub mod icon_theme;
pub mod jsonc;
pub mod keys;
pub mod maps;
pub mod naming;
pub mod navigation;
pub mod partial;
pub mod path_edit;
pub mod paths;
pub mod properties;
pub mod scan_progress;
pub mod search;
pub mod search_panel;
pub mod selection;
pub mod settings;
pub mod shared;
pub mod stats;
pub mod text;
pub mod trash;
pub mod undo;


