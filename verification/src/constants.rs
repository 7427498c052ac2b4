//! Screen geometry and layout of the 320x240 display.

use vstd::prelude::*;

verus! {

pub const W: u16 = 320;
pub const H: u16 = 240;

pub const HEADER_H: u16 = 22;
pub const FOOTER_H: u16 = 18;
pub const CONTENT_Y: u16 = HEADER_H;
pub const CONTENT_H: u16 = H - HEADER_H - FOOTER_H;
pub const FOOTER_Y: u16 = H - FOOTER_H;

pub const ROW_H: u16 = 18;
pub const SMALL_CHAR_W: u16 = 7;
pub const LARGE_CHAR_W: u16 = 11;

pub const INPUT_X: u16 = 100;
pub const INPUT_W: u16 = 100;
pub const LABEL_X: u16 = 5;

/// Text of a result value starts at this column.
pub const RESULT_X: u16 = 110;

} // verus!
