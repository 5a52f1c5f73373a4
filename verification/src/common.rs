//! The older cargo model with separate "have" and "want" cargo, and the LED
//! update record shared by the entities that draw on the board.
use vstd::prelude::*;

use crate::cargo::{fade_between, fade_value, lemma_fade_bounded};
use crate::location::Location;

verus! {

/// How an LED is animated over a 64-tick cycle (the fade uses all 256 ticks).
#[derive(Clone, Copy, Debug, PartialEq, Eq, Structural)]
pub enum LedPattern {
    SolidBright,
    SolidDim,
    Blink1,
    Blink2,
    Blink3,
    Fade1,
}

impl LedPattern {
    pub open spec fn pwm(self, phase: u8, min_b: u8, max_b: u8) -> u8 {
        let p = phase % 64;
        match self {
            LedPattern::SolidBright => max_b,
            LedPattern::SolidDim => min_b,
            LedPattern::Blink1 => if p <= 11 { max_b } else { min_b },
            LedPattern::Blink2 => if p <= 7 || (16 <= p <= 23) { max_b } else { min_b },
            LedPattern::Blink3 => if p <= 5 || (12 <= p <= 17) || (24 <= p <= 29) {
                max_b
            } else {
                min_b
            },
            LedPattern::Fade1 => fade_between(phase, min_b, max_b),
        }
    }

    pub fn get_pwm(&self, phase: u8, min_b: u8, max_b: u8) -> (r: u8)
        ensures
            r == self.pwm(phase, min_b, max_b),
            min_b <= max_b ==> min_b <= r <= max_b,
            max_b <= min_b ==> max_b <= r <= min_b,
    {
        proof {
            lemma_fade_bounded(phase, min_b, max_b);
        }
        match self {
            LedPattern::SolidBright => max_b,
            LedPattern::SolidDim => min_b,
            LedPattern::Blink1 => {
                if phase % 64 <= 11 { max_b } else { min_b }
            },
            LedPattern::Blink2 => {
                let p = phase % 64;
                if p <= 7 { max_b } else if p <= 15 { min_b } else if p <= 23 { max_b } else { min_b }
            },
            LedPattern::Blink3 => {
                let p = phase % 64;
                if p <= 5 {
                    max_b
                } else if p <= 11 {
                    min_b
                } else if p <= 17 {
                    max_b
                } else if p <= 23 {
                    min_b
                } else if p <= 29 {
                    max_b
                } else {
                    min_b
                }
            },
            LedPattern::Fade1 => fade_value(phase, min_b, max_b),
        }
    }
}

pub const RED_LED_MIN_B: u8 = 30;

pub const RED_LED_MAX_B: u8 = 90;

pub const YELLOW_LED_MIN_B: u8 = 64;

pub const YELLOW_LED_MAX_B: u8 = 255;

/// Cargo waiting on a platform (`Have`), asked for by a platform (`Want`),
/// or nothing.
#[derive(Clone, Copy, Debug, PartialEq, Eq, Structural)]
pub enum Cargo {
    Empty,
    Have(LedPattern),
    Want(LedPattern),
}

impl Cargo {
    pub open spec fn platform_pwm(self, phase: u8) -> u8 {
        match self {
            Cargo::Empty => 0,
            Cargo::Have(pattern) => pattern.pwm(phase, RED_LED_MAX_B, RED_LED_MIN_B),
            Cargo::Want(pattern) => pattern.pwm(phase, RED_LED_MIN_B / 2, RED_LED_MAX_B / 2),
        }
    }

    pub open spec fn car_pwm(self, phase: u8) -> u8 {
        match self {
            Cargo::Have(pattern) => pattern.pwm(phase, YELLOW_LED_MAX_B, YELLOW_LED_MIN_B),
            _ => YELLOW_LED_MIN_B,
        }
    }

    pub fn is_empty(&self) -> (r: bool)
        ensures
            r == (*self == Cargo::Empty),
    {
        matches!(self, Cargo::Empty)
    }

    /// Cargo on offer is bright with short dim blinks; wanted cargo is dim
    /// with short bright blinks.
    /// Offered cargo is bright with short dim blinks (between 30 and 90),
    /// wanted cargo dim with short bright blinks (between 15 and 45).
    pub fn platform_brightness(&self, phase: u8) -> (r: u8)
        ensures
            r == self.platform_pwm(phase),
            self is Have ==> RED_LED_MIN_B <= r <= RED_LED_MAX_B,
            self is Want ==> RED_LED_MIN_B / 2 <= r <= RED_LED_MAX_B / 2,
            self is Empty ==> r == 0,
    {
        match self {
            Cargo::Empty => 0,
            Cargo::Have(pattern) => pattern.get_pwm(phase, RED_LED_MAX_B, RED_LED_MIN_B),
            Cargo::Want(pattern) => pattern.get_pwm(phase, RED_LED_MIN_B / 2, RED_LED_MAX_B / 2),
        }
    }

    pub fn car_brightness(&self, phase: u8) -> (r: u8)
        ensures
            r == self.car_pwm(phase),
    {
        match self {
            Cargo::Have(pattern) => pattern.get_pwm(phase, YELLOW_LED_MAX_B, YELLOW_LED_MIN_B),
            _ => YELLOW_LED_MIN_B,
        }
    }
}

/// A request to set the LED at `location` to brightness `pwm`.
#[derive(Clone, Copy, Debug, PartialEq, Eq, Structural)]
pub struct LedUpdate {
    pub location: Location,
    pub pwm: u8,
}

impl LedUpdate {
    pub fn new(location: Location, pwm: u8) -> (r: Self)
        ensures
            r.location == location,
            r.pwm == pwm,
    {
        Self { location, pwm }
    }
}

} // verus!
