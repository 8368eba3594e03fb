//! What the panels and the overlays keep and decide, apart from how they are
//! drawn.

pub mod geometry;
pub mod sort;
pub mod text_input;
pub mod prompt;
pub mod filter;
pub mod scroll;
pub mod tab;
pub mod columns;
pub mod toast;
pub mod graphics;
pub mod icon;
pub mod label;
pub mod preview;
pub mod dialog;
pub mod help;
pub mod favorites;
pub mod infobar;
pub mod finder;
pub mod pane;
pub mod panel;
pub mod keybar;
