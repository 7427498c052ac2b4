//! Algebra 2A calculator tools: exact integer formatting, fractions,
//! input editing, menus, the screen state machine and its display lists.

pub mod app_state;
pub mod cards;
pub mod constants;
pub mod reference;
pub mod text;
pub mod tools;
pub mod ui;
