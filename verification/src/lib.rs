//! Pane, task and overview logic of swarmux, a tmux-first control plane for
//! coding agents.
pub mod text;
pub mod order;
pub mod style;
pub mod keys;
pub mod config;
pub mod model;
pub mod panes_support;
pub mod panes;
pub mod panes_tui;
pub mod panes_tui_detail;
pub mod panes_tui_render;
pub mod overview_tui_helpers;
pub mod overview_tui_data;
pub mod overview_tui;
pub mod overview_tui_render;
