//! Cargo carried by trains and offered by platforms, and the blink patterns
//! that make cargo visible on the LEDs.
use vstd::prelude::*;

verus! {

/// How an LED holding cargo is animated over the 256 ticks of its phase.
#[derive(Clone, Copy, Debug, PartialEq, Eq, Structural)]
pub enum LedPattern {
    Solid,
    Blink1,
    Blink2,
    Blink3,
    Fade,
}

/// Cargo in a car or on a platform.
#[derive(Clone, Copy, Debug, PartialEq, Eq, Structural)]
pub enum Cargo {
    Empty,
    Full(LedPattern),
}

impl Default for Cargo {
    fn default() -> (r: Self)
        ensures
            r == Cargo::Empty,
    {
        Cargo::Empty
    }
}

/// The fade curve: from `from` at phase 0 linearly to `to` at phase 127,
/// then back the same way over phases 128 to 255 (phase `p` and `255 - p`
/// look the same). It never leaves the range between the two bounds,
/// whichever of them is larger.
pub open spec fn fade_between(phase: u8, from: u8, to: u8) -> u8 {
    let h: int = if phase < 128 { phase as int } else { 255 - phase };
    if from <= to {
        (from + h * (to - from) / 127) as u8
    } else {
        (from - h * (from - to) / 127) as u8
    }
}

/// The fade stays between its two bounds, starts at `from`, reaches `to` at
/// phase 127, and is symmetric about phase 127.5.
pub proof fn lemma_fade_bounded(phase: u8, from: u8, to: u8)
    ensures
        from <= to ==> from <= fade_between(phase, from, to) <= to,
        to <= from ==> to <= fade_between(phase, from, to) <= from,
        fade_between(0, from, to) == from,
        fade_between(127, from, to) == to,
        fade_between(phase, from, to) == fade_between((255 - phase) as u8, from, to),
{
    assert(0int * (to - from) == 0 && 0int * (from - to) == 0);
    assert(127int * (to - from) / 127 == to - from && 127int * (from - to) / 127 == from - to);
    let h: int = if phase < 128 { phase as int } else { 255 - phase };
    if from <= to {
        let d: int = to - from;
        assert(0 <= h * d / 127 <= d) by (nonlinear_arith)
            requires
                0 <= h <= 127,
                0 <= d <= 255,
        ;
        assert(127 * d / 127 == d) by (nonlinear_arith)
            requires
                0 <= d,
        ;
    } else {
        let d: int = from - to;
        assert(0 <= h * d / 127 <= d) by (nonlinear_arith)
            requires
                0 <= h <= 127,
                0 <= d <= 255,
        ;
        assert(127 * d / 127 == d) by (nonlinear_arith)
            requires
                0 <= d,
        ;
    }
}

/// The fade in bounded arithmetic: `h * d <= 127 * 255` and the quotient is
/// at most `d`.
pub fn fade_value(phase: u8, from: u8, to: u8) -> (r: u8)
    ensures
        r == fade_between(phase, from, to),
{
    let h: u16 = if phase < 128 { phase as u16 } else { 255 - phase as u16 };
    if from <= to {
        let d: u16 = (to - from) as u16;
        proof {
            assert(h * d <= 127 * 255) by (nonlinear_arith)
                requires
                    h <= 127,
                    d <= 255,
            ;
            assert(h * d / 127 <= d) by (nonlinear_arith)
                requires
                    h <= 127,
            ;
        }
        let step: u16 = h * d / 127;
        (from as u16 + step) as u8
    } else {
        let d: u16 = (from - to) as u16;
        proof {
            assert(h * d <= 127 * 255) by (nonlinear_arith)
                requires
                    h <= 127,
                    d <= 255,
            ;
            assert(h * d / 127 <= d) by (nonlinear_arith)
                requires
                    h <= 127,
            ;
        }
        let step: u16 = h * d / 127;
        (from as u16 - step) as u8
    }
}

impl LedPattern {
    /// The brightness of this pattern at `phase`, choosing between `min_b`
    /// (off part of a blink) and `max_b` (on part). The fade always rises
    /// from the smaller of the two bounds at phase 0 to the larger at phase
    /// 127, whichever of them is `min_b`.
    pub open spec fn pwm(self, phase: u8, min_b: u8, max_b: u8) -> u8 {
        let p = phase % 128;
        match self {
            LedPattern::Solid => max_b,
            LedPattern::Blink1 => if p <= 23 { min_b } else { max_b },
            LedPattern::Blink2 => if p <= 15 || (32 <= p <= 47) { min_b } else { max_b },
            LedPattern::Blink3 => if p <= 11 || (24 <= p <= 35) || (48 <= p <= 59) {
                min_b
            } else {
                max_b
            },
            LedPattern::Fade => if min_b <= max_b {
                fade_between(phase, min_b, max_b)
            } else {
                fade_between(phase, max_b, min_b)
            },
        }
    }

    pub fn get_pwm(&self, phase: u8, min_b: u8, max_b: u8) -> (r: u8)
        ensures
            r == self.pwm(phase, min_b, max_b),
            min_b <= max_b ==> min_b <= r <= max_b,
            max_b <= min_b ==> max_b <= r <= min_b,
    {
        proof {
            lemma_fade_bounded(phase, min_b, max_b);
            lemma_fade_bounded(phase, max_b, min_b);
        }
        match self {
            LedPattern::Solid => max_b,
            LedPattern::Blink1 => {
                let p = phase % 128;
                if p <= 23 { min_b } else { max_b }
            },
            LedPattern::Blink2 => {
                let p = phase % 128;
                if p <= 15 { min_b } else if p <= 31 { max_b } else if p <= 47 { min_b } else { max_b }
            },
            LedPattern::Blink3 => {
                let p = phase % 128;
                if p <= 11 {
                    min_b
                } else if p <= 23 {
                    max_b
                } else if p <= 35 {
                    min_b
                } else if p <= 47 {
                    max_b
                } else if p <= 59 {
                    min_b
                } else {
                    max_b
                }
            },
            LedPattern::Fade => if min_b <= max_b {
                fade_value(phase, min_b, max_b)
            } else {
                fade_value(phase, max_b, min_b)
            },
        }
    }
}

impl Cargo {
    pub open spec fn platform_pwm(self, phase: u8, min: u8, max: u8) -> u8 {
        match self {
            Cargo::Empty => 0,
            Cargo::Full(pattern) => pattern.pwm(phase, min, max),
        }
    }

    pub open spec fn car_pwm(self, phase: u8, max: u8) -> u8 {
        match self {
            Cargo::Empty => max / 2,
            Cargo::Full(pattern) => pattern.pwm(phase, max / 2, max),
        }
    }

    /// Brightness of a platform holding this cargo: dark when empty.
    pub fn platform_brightness(&self, phase: u8, min: u8, max: u8) -> (r: u8)
        ensures
            r == self.platform_pwm(phase, min, max),
    {
        match self {
            Cargo::Empty => 0,
            Cargo::Full(pattern) => pattern.get_pwm(phase, min, max),
        }
    }

    /// Brightness of a car holding this cargo: half brightness when empty.
    pub fn car_brightness(&self, phase: u8, max: u8) -> (r: u8)
        ensures
            r == self.car_pwm(phase, max),
    {
        proof {
            assert(max >> 1 == max / 2) by (bit_vector);
        }
        match self {
            Cargo::Empty => max >> 1,
            Cargo::Full(pattern) => pattern.get_pwm(phase, max >> 1, max),
        }
    }
}

} // verus!
