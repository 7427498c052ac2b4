//! User-interface pieces: the numeric input buffer, menus and display lists.

pub mod draw;
pub mod input;
pub mod menu;
