//! The logic of a dual-pane terminal file manager: listings and how they are
//! ordered, the jobs that copy, move and delete, the readers that answer the
//! panels, and the state every overlay keeps, each stated and proved.

pub mod action;
pub mod app;
pub mod command_line;
pub mod config;
pub mod favorites;
pub mod fs;
pub mod keys;
pub mod modes;
pub mod open;
pub mod places;
pub mod text;
pub mod ui;
