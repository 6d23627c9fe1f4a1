//! A small game-menu scaffold: a two-state application (main menu and
//! gameplay), a main-menu plugin that builds a button panel, per-frame
//! hover/press handling, and teardown on leaving the menu. The scene is an
//! explicit owned-entity list; an engine-agnostic driver loop feeds pointer
//! input in and reads termination requests out.

pub mod game;
pub mod main_menu;
pub mod ui;
pub mod world;
