//! Terminal engine core: cells, grid, scrollback, the editable input line,
//! Sixel graphics decoding, VT sequence handling and search, together with
//! the configuration and overlay state used around them.

pub mod cell;
pub mod text;
pub mod input_buffer;
pub mod grid;
pub mod buffer;
pub mod sixel;
pub mod profile;
pub mod profile_naming;
pub mod vt_handler;
pub mod compiled_regex;
pub mod search;
pub mod keybindings;
pub mod tabs;
pub mod rendering;
pub mod ai_config;
pub mod find_overlay;
pub mod command_query;
pub mod ai;
pub mod split_pane;
pub mod plugin_api;
pub mod plugin_host;
pub mod casting;
pub mod tab_drag;
pub mod terminal;
pub mod frame_pacer;
pub mod toast;
pub mod wsl;
pub mod shortcuts;
pub mod pty_keys;
pub mod workspace;
pub mod local_manager;
pub mod palette;
pub mod ai_service;
