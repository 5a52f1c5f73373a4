//! Light Rail: the game logic of a train-and-track LED board.
//!
//! Trains of lit cars travel over a fixed graph of track LEDs, switches
//! redirect them at forks and crosses, and platforms ask for cargo to be
//! picked up or delivered. Everything that touches hardware (I2C drivers,
//! pins, timers, EEPROM) lives outside this crate; this crate computes what
//! the board should show and how the game state evolves.
use vstd::prelude::*;

pub mod bounded;
pub mod cargo;
pub mod common;
pub mod game;
pub mod game_settings;
pub mod game_state;
pub mod input;
pub mod is31fl3731;
pub mod layout;
pub mod location;
pub mod modes;
pub mod platform;
pub mod random;
pub mod segments;
pub mod switch;
pub mod tone;
pub mod track;
pub mod train;

verus! {

/// Number of buttons on the board (eight switch buttons, four direction buttons).
pub const NUM_BUTTONS: usize = 12;

/// Number of seven-segment digits on the board.
pub const NUM_DIGITS: u8 = 3;

} // verus!
