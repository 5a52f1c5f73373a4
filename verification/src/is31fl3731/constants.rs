//! Sizes of the LED matrix driver.
use vstd::prelude::*;

verus! {

pub const MAX_LEDS: u8 = 144;

pub const MAX_ROWS: u8 = 7;

pub const MAX_FRAMES: u8 = 8;

} // verus!
