//! svitek: the logic of a Sway workspace switcher panel.

pub mod capture;
pub mod capture_promises;
pub mod capture_steps;
pub mod cli;
pub mod commands;
pub mod config;
pub mod control;
pub mod inject;
pub mod ipc;
pub mod layout;
pub mod lists;
pub mod model;
pub mod panel;
pub mod panel_steps;
pub mod paths;
pub mod pixel_steps;
pub mod pixels;
pub mod promises;
pub mod pump;
pub mod selection;
pub mod style;
pub mod sway;
pub mod sway_steps;
pub mod switcher;
pub mod switcher_steps;
pub mod text;
