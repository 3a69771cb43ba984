//! The logic of the Zetta terminal: pane trees, tabs, profiles, projects, the
//! process-control protocol and the command lines around them.

pub mod actions;
pub mod command_panes;
pub mod configuration_reload;
pub mod default_terminal;
pub mod id_map;
pub mod json;
pub mod keymap_file;
pub mod line_file;
pub mod linux_desktop;
pub mod local_sessions;
pub mod mosh;
pub mod mux;
pub mod mux_identity;
pub mod mux_stub;
pub mod order;
pub mod pane;
pub mod pane_overlay;
pub mod pane_render;
pub mod pane_theme_picker;
pub mod path;
pub mod process_control;
pub mod profile;
pub mod profile_cli;
pub mod profile_icon;
pub mod project;
pub mod project_cli;
pub mod project_commands;
pub mod project_context;
pub mod project_form;
pub mod remote_clipboard_ui;
pub mod run_command;
pub mod secrets;
pub mod text;
pub mod zetta;
