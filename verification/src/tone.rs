//! Buzzer tones: the timer settings that make the buzzer pin toggle at a
//! given frequency for a given time. The timer registers themselves are
//! written by the board support code.
use vstd::prelude::*;

verus! {

/// The core clock of the board (an 8 MHz ATmega32u4).
pub const CORE_CLOCK_HZ: u32 = 8_000_000;

/// What the tone timer should do.
#[derive(Clone, Copy, Debug, PartialEq, Eq, Structural)]
pub enum ToneCommand {
    /// Stop toggling and drive the pin low.
    Silence,
    /// Toggle the pin each time the timer counts to `ocr` (clocked directly,
    /// or through the divide-by-64 prescaler), `toggle_count` times or
    /// forever.
    Play { ocr: u16, prescale_64: bool, toggle_count: Option<u64> },
}

/// The timer compare value for `frequency` without prescaling.
pub open spec fn direct_ocr(frequency: u16) -> int {
    (CORE_CLOCK_HZ as int) / (frequency as int) / 2 - 1
}

/// The timer settings for `frequency` Hz during `duration` ms (forever for
/// 0 ms); silence for a frequency of 0.
pub open spec fn tone_command(frequency: u16, duration: u16) -> ToneCommand {
    if frequency == 0 {
        ToneCommand::Silence
    } else {
        ToneCommand::Play {
            ocr: (if direct_ocr(frequency) > 0xFFFF {
                (CORE_CLOCK_HZ as int) / (frequency as int) / 2 / 64 - 1
            } else {
                direct_ocr(frequency)
            }) as u16,
            prescale_64: direct_ocr(frequency) > 0xFFFF,
            toggle_count: if duration > 0 {
                Some((2 * frequency * duration / 1000) as u64)
            } else {
                None
            },
        }
    }
}

/// The buzzer driven by a timer in clear-on-compare mode.
pub struct TimerTone {}

impl TimerTone {
    pub fn new() -> (r: Self) {
        TimerTone {}
    }

    /// Plays `frequency` Hz for `duration` ms (forever for 0 ms); a
    /// frequency of 0 is silence.
    pub fn tone(&mut self, frequency: u16, duration: u16) -> (r: ToneCommand)
        ensures
            r == tone_command(frequency, duration),
            frequency == 0 ==> r == ToneCommand::Silence,
            frequency > 0 ==> r == (ToneCommand::Play {
                ocr: (if direct_ocr(frequency) > 0xFFFF {
                    (CORE_CLOCK_HZ as int) / (frequency as int) / 2 / 64 - 1
                } else {
                    direct_ocr(frequency)
                }) as u16,
                prescale_64: direct_ocr(frequency) > 0xFFFF,
                toggle_count: if duration > 0 {
                    Some((2 * frequency * duration / 1000) as u64)
                } else {
                    None
                },
            }),
    {
        if frequency == 0 {
            return self.no_tone();
        }
        proof {
            let f = frequency as u32;
            assert(CORE_CLOCK_HZ / f >= 122) by (nonlinear_arith)
                requires
                    1 <= f <= 0xFFFF,
            ;
        }
        let mut ocr: u32 = CORE_CLOCK_HZ / frequency as u32 / 2 - 1;
        let mut prescale_64 = false;
        if ocr > 0xFFFF {
            ocr = CORE_CLOCK_HZ / frequency as u32 / 2 / 64 - 1;
            prescale_64 = true;
        }
        let toggle_count = if duration > 0 {
            proof {
                assert(2 * (frequency as u64) * (duration as u64) <= 2 * 0xFFFF * 0xFFFF) by (nonlinear_arith)
                    requires
                        frequency <= 0xFFFF,
                        duration <= 0xFFFF,
                ;
            }
            Some(2 * frequency as u64 * duration as u64 / 1000)
        } else {
            None
        };
        ToneCommand::Play { ocr: ocr as u16, prescale_64, toggle_count }
    }

    pub fn no_tone(&mut self) -> (r: ToneCommand)
        ensures
            r == ToneCommand::Silence,
    {
        ToneCommand::Silence
    }
}

/// One timer compare interrupt: the pin toggles and the remaining toggle
/// count goes down. Returns the new count and whether the timer interrupt
/// must now be switched off.
pub fn toggle_step(toggle_count: Option<u64>) -> (r: (Option<u64>, bool))
    requires
        toggle_count != Some(0u64),
    ensures
        toggle_count is None ==> r == (None::<u64>, false),
        toggle_count == Some(1u64) ==> r == (None::<u64>, true),
        toggle_count is Some && toggle_count.unwrap() > 1 ==> r == (Some((toggle_count.unwrap() - 1) as u64), false),
{
    match toggle_count {
        Some(toggles_left) => {
            let left = toggles_left - 1;
            if left == 0 {
                (None, true)
            } else {
                (Some(left), false)
            }
        },
        None => (None, false),
    }
}

} // verus!
