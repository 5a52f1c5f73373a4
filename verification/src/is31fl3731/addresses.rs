//! Register addresses of the LED matrix driver.
use vstd::prelude::*;

verus! {

pub const MODE_REGISTER: u8 = 0x00;

pub const FRAME: u8 = 0x01;

pub const AUDIOSYNC: u8 = 0x06;

pub const SHUTDOWN: u8 = 0x0A;

pub const CONFIG_BANK: u8 = 0x0B;

pub const BANK_ADDRESS: u8 = 0xFD;

pub const PICTURE_MODE: u8 = 0x00;

pub const ENABLE_OFFSET: u8 = 0x00;

pub const COLOR_OFFSET: u8 = 0x24;

} // verus!
