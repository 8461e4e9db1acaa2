//! The logic of an editor's GTK user interface.
//!
//! What the interface decides and computes stands here: which menus there are
//! and what they do, how panels are docked and moved, what a plugin may ask
//! for, when the user is asked before something is lost, what is written to
//! the status bar. It works on plain values. The widgets, and the calls that
//! carry a decision out, belong to the program around it.
//!
//! Where a task goes back and forth between decisions and the outside, a module
//! holds a machine: it is told what the outside said and returns what to do
//! next. What such a machine does from any state is an open spec function, and
//! what holds of all its runs is a public proof function.
pub mod closing;
pub mod delivery;
pub mod dock_control;
pub mod dock_geometry;
pub mod dock_gesture;
pub mod dock_panels;
pub mod dock_reconcile;
pub mod docmap;
pub mod editor_search;
pub mod error;
pub mod fif;
pub mod file_actions;
pub mod languages;
pub mod menu;
pub mod notify;
pub mod paths;
pub mod platform;
pub mod plugin_checks;
pub mod plugin_host;
pub mod plugin_load;
pub mod plugin_menu;
pub mod preferences;
pub mod print;
pub mod recent;
pub mod search;
pub mod select_mark;
pub mod session;
pub mod startup;
pub mod state;
pub mod status;
pub mod style_config;
pub mod tabs;
pub mod text;
pub mod toolbar;
pub mod uri_list;
pub mod view_settings;
