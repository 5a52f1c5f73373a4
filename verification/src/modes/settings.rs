//! The settings mode: browse the settings with up and down, change one with
//! left and right.
use vstd::prelude::*;

use crate::bounded::{train_list, trains_slice};
use crate::cargo::{Cargo, LedPattern};
use crate::game_settings::GameSettings;
use crate::game_state::{
    after_arrival, after_spawn, platforms_after_init, trains_after_init, DisplayState, GameState,
    SpawnKind, TRAIN_SIZE,
};
use crate::input::{InputDirection, InputEvent};
use crate::modes::GameModeHandler;
use crate::segments::{ascii_segment, segment_bits};

verus! {

#[derive(Clone, Copy, Debug, PartialEq, Eq, Structural)]
pub enum Setting {
    DigitBrightness,
    TrainBrightness,
    PlatformBrightness,
    SwitchBrightness,
    BuzzerEnabled,
}

pub struct SettingsMode {
    pub cur_setting: Setting,
}

/// The display for `setting`: two letters naming it (the second with its
/// decimal point) and its level as a digit.
pub open spec fn settings_display(setting: Setting, settings: GameSettings) -> DisplayState {
    let (first, second, value) = match setting {
        Setting::DigitBrightness => (68u8, 66u8, (48 + settings.digit_level()) as u8),
        Setting::TrainBrightness => (84u8, 66u8, (48 + settings.car_level()) as u8),
        Setting::PlatformBrightness => (80u8, 66u8, (48 + settings.platform_level()) as u8),
        Setting::SwitchBrightness => (89u8, 66u8, (48 + settings.switch_level()) as u8),
        Setting::BuzzerEnabled => (66u8, 90u8, if settings.buzzer() { 49u8 } else { 48u8 }),
    };
    DisplayState::Segments([ascii_segment(first), ascii_segment(second) | 0x80u8, ascii_segment(value)])
}

pub open spec fn next_of(s: Setting) -> Setting {
    match s {
        Setting::DigitBrightness => Setting::TrainBrightness,
        Setting::TrainBrightness => Setting::PlatformBrightness,
        Setting::PlatformBrightness => Setting::SwitchBrightness,
        Setting::SwitchBrightness => Setting::BuzzerEnabled,
        Setting::BuzzerEnabled => Setting::DigitBrightness,
    }
}

pub open spec fn prev_of(s: Setting) -> Setting {
    match s {
        Setting::DigitBrightness => Setting::BuzzerEnabled,
        Setting::TrainBrightness => Setting::DigitBrightness,
        Setting::PlatformBrightness => Setting::TrainBrightness,
        Setting::SwitchBrightness => Setting::PlatformBrightness,
        Setting::BuzzerEnabled => Setting::SwitchBrightness,
    }
}

/// The levels after raising setting `s` (toggling the buzzer).
pub open spec fn inc_levels(s: Setting, o: (u8, u8, u8, u8, bool, u8, u8)) -> (u8, u8, u8, u8, bool, u8, u8) {
    match s {
        Setting::DigitBrightness => (if o.0 < 9 { (o.0 + 1) as u8 } else { o.0 }, o.1, o.2, o.3, o.4, o.5, o.6),
        Setting::TrainBrightness => (o.0, if o.1 < 5 { (o.1 + 1) as u8 } else { o.1 }, o.2, o.3, o.4, o.5, o.6),
        Setting::PlatformBrightness => (o.0, o.1, if o.2 < 5 { (o.2 + 1) as u8 } else { o.2 }, o.3, o.4, o.5, o.6),
        Setting::SwitchBrightness => (o.0, o.1, o.2, if o.3 < 5 { (o.3 + 1) as u8 } else { o.3 }, o.4, o.5, o.6),
        Setting::BuzzerEnabled => (o.0, o.1, o.2, o.3, !o.4, o.5, o.6),
    }
}

/// The levels after lowering setting `s` (toggling the buzzer).
pub open spec fn dec_levels(s: Setting, o: (u8, u8, u8, u8, bool, u8, u8)) -> (u8, u8, u8, u8, bool, u8, u8) {
    match s {
        Setting::DigitBrightness => (if o.0 > 0 { (o.0 - 1) as u8 } else { o.0 }, o.1, o.2, o.3, o.4, o.5, o.6),
        Setting::TrainBrightness => (o.0, if o.1 > 0 { (o.1 - 1) as u8 } else { o.1 }, o.2, o.3, o.4, o.5, o.6),
        Setting::PlatformBrightness => (o.0, o.1, if o.2 > 0 { (o.2 - 1) as u8 } else { o.2 }, o.3, o.4, o.5, o.6),
        Setting::SwitchBrightness => (o.0, o.1, o.2, if o.3 > 0 { (o.3 - 1) as u8 } else { o.3 }, o.4, o.5, o.6),
        Setting::BuzzerEnabled => (o.0, o.1, o.2, o.3, !o.4, o.5, o.6),
    }
}

/// Browsing down then up (or up then down) comes back to the same setting,
/// and five steps either way go round all of them.
pub proof fn lemma_settings_browse(s: Setting)
    ensures
        prev_of(next_of(s)) == s,
        next_of(prev_of(s)) == s,
        next_of(next_of(next_of(next_of(next_of(s))))) == s,
{
}

/// Lowering a setting undoes raising it, and raising undoes lowering, unless
/// the level was already at the top (or bottom); the buzzer toggles back.
pub proof fn lemma_settings_adjust_undone(s: Setting, o: (u8, u8, u8, u8, bool, u8, u8))
    requires
        o.0 <= 9 && o.1 <= 5 && o.2 <= 5 && o.3 <= 5,
    ensures
        ({
            let at_top = match s {
                Setting::DigitBrightness => o.0 == 9,
                Setting::TrainBrightness => o.1 == 5,
                Setting::PlatformBrightness => o.2 == 5,
                Setting::SwitchBrightness => o.3 == 5,
                Setting::BuzzerEnabled => false,
            };
            !at_top ==> dec_levels(s, inc_levels(s, o)) == o
        }),
        ({
            let at_bottom = match s {
                Setting::DigitBrightness => o.0 == 0,
                Setting::TrainBrightness => o.1 == 0,
                Setting::PlatformBrightness => o.2 == 0,
                Setting::SwitchBrightness => o.3 == 0,
                Setting::BuzzerEnabled => false,
            };
            !at_bottom ==> inc_levels(s, dec_levels(s, o)) == o
        }),
{
}

impl Default for SettingsMode {
    fn default() -> (r: Self)
        ensures
            r.cur_setting == Setting::DigitBrightness,
    {
        SettingsMode { cur_setting: Setting::DigitBrightness }
    }
}

impl SettingsMode {
    pub fn setting_display(&self, settings: &GameSettings) -> (r: DisplayState)
        ensures
            r == settings_display(self.cur_setting, *settings),
    {
        let bits = segment_bits();
        let mut segments = [32u8; 3];
        match self.cur_setting {
            Setting::DigitBrightness => {
                segments[0] = as1115::ascii_to_segment(68);
                segments[1] = as1115::ascii_to_segment(66) | bits.dp;
                segments[2] = as1115::ascii_to_segment(48 + settings.digit_brightness_level());
            },
            Setting::TrainBrightness => {
                segments[0] = as1115::ascii_to_segment(84);
                segments[1] = as1115::ascii_to_segment(66) | bits.dp;
                segments[2] = as1115::ascii_to_segment(48 + settings.car_brightness_level());
            },
            Setting::PlatformBrightness => {
                segments[0] = as1115::ascii_to_segment(80);
                segments[1] = as1115::ascii_to_segment(66) | bits.dp;
                segments[2] = as1115::ascii_to_segment(48 + settings.platform_brightness_level());
            },
            Setting::SwitchBrightness => {
                segments[0] = as1115::ascii_to_segment(89);
                segments[1] = as1115::ascii_to_segment(66) | bits.dp;
                segments[2] = as1115::ascii_to_segment(48 + settings.switch_brightness_level());
            },
            Setting::BuzzerEnabled => {
                segments[0] = as1115::ascii_to_segment(66);
                segments[1] = as1115::ascii_to_segment(90) | bits.dp;
                segments[2] = as1115::ascii_to_segment(
                    if settings.is_buzzer_enabled() {
                        49
                    } else {
                        48
                    },
                );
            },
        }
        let r = DisplayState::Segments(segments);
        proof {
            let expected = settings_display(self.cur_setting, *settings);
            if let DisplayState::Segments(e) = expected {
                assert(segments =~= e);
            }
        }
        r
    }

    pub fn next_setting(&mut self)
        ensures
            final(self).cur_setting == next_of(old(self).cur_setting),
    {
        self.cur_setting = match self.cur_setting {
            Setting::DigitBrightness => Setting::TrainBrightness,
            Setting::TrainBrightness => Setting::PlatformBrightness,
            Setting::PlatformBrightness => Setting::SwitchBrightness,
            Setting::SwitchBrightness => Setting::BuzzerEnabled,
            Setting::BuzzerEnabled => Setting::DigitBrightness,
        };
    }

    pub fn prev_setting(&mut self)
        ensures
            final(self).cur_setting == prev_of(old(self).cur_setting),
    {
        self.cur_setting = match self.cur_setting {
            Setting::DigitBrightness => Setting::BuzzerEnabled,
            Setting::TrainBrightness => Setting::DigitBrightness,
            Setting::PlatformBrightness => Setting::TrainBrightness,
            Setting::SwitchBrightness => Setting::PlatformBrightness,
            Setting::BuzzerEnabled => Setting::SwitchBrightness,
        };
    }

    /// Raises the current setting (toggles the buzzer).
    pub fn inc_setting(&mut self, settings: &mut GameSettings)
        ensures
            final(self).cur_setting == old(self).cur_setting,
            final(settings).levels() == inc_levels(old(self).cur_setting, old(settings).levels()),
    {
        match self.cur_setting {
            Setting::DigitBrightness => settings.inc_digit_brightness_level(),
            Setting::TrainBrightness => settings.inc_car_brightness_level(),
            Setting::PlatformBrightness => settings.inc_platform_brightness_level(),
            Setting::SwitchBrightness => settings.inc_switch_brightness_level(),
            Setting::BuzzerEnabled => settings.toggle_buzzer(),
        }
    }

    /// Lowers the current setting (toggles the buzzer).
    pub fn dec_setting(&mut self, settings: &mut GameSettings)
        ensures
            final(self).cur_setting == old(self).cur_setting,
            final(settings).levels() == dec_levels(old(self).cur_setting, old(settings).levels()),
    {
        match self.cur_setting {
            Setting::DigitBrightness => settings.dec_digit_brightness_level(),
            Setting::TrainBrightness => settings.dec_car_brightness_level(),
            Setting::PlatformBrightness => settings.dec_platform_brightness_level(),
            Setting::SwitchBrightness => settings.dec_switch_brightness_level(),
            Setting::BuzzerEnabled => settings.toggle_buzzer(),
        }
    }
}

impl GameModeHandler for SettingsMode {
    open spec fn mode_wf(&self) -> bool {
        true
    }

    open spec fn ready(&self, trains: nat) -> bool {
        true
    }

    /// Shows the current setting and lets one train of three cars run among
    /// platforms offering solid cargo.
    fn on_restart(&mut self, state: &mut GameState)
        ensures
            settings_restarted(*final(self), *final(state), *old(self), *old(state)),
    {
        state.display = self.setting_display(&state.settings);
        state.is_over = false;
        state.init_trains(Cargo::Full(LedPattern::Solid), 3, TRAIN_SIZE as u8);
        state.init_platforms(Cargo::Full(LedPattern::Solid));
    }

    /// Empty platforms now and then offer cargo of a random pattern.
    fn on_game_tick(&mut self, state: &mut GameState)
        ensures
            settings_ticked(*final(self), *final(state), *old(self), *old(state)),
    {
        state.spawn_cargo(50, SpawnKind::AnyPattern);
    }

    /// Up and down browse the settings, left and right change the current
    /// one; the display follows. Other events change nothing.
    fn on_input_event(&mut self, event: InputEvent, state: &mut GameState)
        ensures
            settings_input(*final(self), *final(state), *old(self), *old(state), event),
    {
        match event {
            InputEvent::DirectionButtonPressed(InputDirection::Up) => self.prev_setting(),
            InputEvent::DirectionButtonPressed(InputDirection::Down) => self.next_setting(),
            InputEvent::DirectionButtonPressed(InputDirection::Left) => self.dec_setting(&mut state.settings),
            InputEvent::DirectionButtonPressed(InputDirection::Right) => self.inc_setting(&mut state.settings),
            _ => return,
        }
        state.display = self.setting_display(&state.settings);
    }

    /// A train arriving at a platform with cargo empties it.
    fn on_train_advance(&mut self, train_index: usize, state: &mut GameState)
        ensures
            settings_advanced(*final(self), *final(state), *old(self), *old(state), train_index),
    {
        let front = trains_slice(&state.trains)[train_index].front();
        state.clear_cargo_at(front);
    }
}

/// `(m, gs)` is the mode and state `(om, ogs)` restarted.
pub open spec fn settings_restarted(m: SettingsMode, gs: GameState, om: SettingsMode, ogs: GameState) -> bool {
    &&& m == om
    &&& gs.display == settings_display(om.cur_setting, ogs.settings)
    &&& !gs.is_over
    &&& gs.is_paused == ogs.is_paused
    &&& gs.redraw
    &&& gs.settings == ogs.settings
    &&& gs.switches@ == ogs.switches@
    &&& gs.target_mode_index == ogs.target_mode_index
    &&& trains_after_init(train_list(gs.trains), train_list(ogs.trains), ogs.platforms@, Cargo::Full(LedPattern::Solid), 3, TRAIN_SIZE as u8)
    &&& platforms_after_init(gs.platforms@, ogs.platforms@, Cargo::Full(LedPattern::Solid))
}

/// `(m, gs)` is the mode and state `(om, ogs)` after one tick.
pub open spec fn settings_ticked(m: SettingsMode, gs: GameState, om: SettingsMode, ogs: GameState) -> bool {
    &&& m == om
    &&& after_spawn(gs, ogs, 50, SpawnKind::AnyPattern)
}

/// `(m, gs)` is the mode and state `(om, ogs)` after button event `event`.
pub open spec fn settings_input(m: SettingsMode, gs: GameState, om: SettingsMode, ogs: GameState, event: InputEvent) -> bool {
    &&& ({
        let s = om.cur_setting;
        m.cur_setting == match event {
            InputEvent::DirectionButtonPressed(InputDirection::Up) => prev_of(s),
            InputEvent::DirectionButtonPressed(InputDirection::Down) => next_of(s),
            _ => s,
        }
    })
    &&& train_list(gs.trains) == train_list(ogs.trains)
    &&& gs.platforms@ == ogs.platforms@
    &&& gs.switches@ == ogs.switches@
    &&& gs.rand == ogs.rand
    &&& gs.is_over == ogs.is_over
    &&& gs.is_paused == ogs.is_paused
    &&& gs.redraw == ogs.redraw
    &&& gs.target_mode_index == ogs.target_mode_index
    &&& match event {
        InputEvent::DirectionButtonPressed(d) => {
            &&& gs.display == settings_display(m.cur_setting, gs.settings)
            &&& (d == InputDirection::Left || d == InputDirection::Right) ==> gs.settings.levels()
                == (if d == InputDirection::Right { inc_levels(om.cur_setting, ogs.settings.levels()) } else { dec_levels(om.cur_setting, ogs.settings.levels()) })
            &&& (d == InputDirection::Up || d == InputDirection::Down) ==> gs.settings == ogs.settings
        },
        _ => gs.display == ogs.display && gs.settings == ogs.settings,
    }
}

/// `(m, gs)` is the mode and state `(om, ogs)` after train `train_index` moved.
pub open spec fn settings_advanced(m: SettingsMode, gs: GameState, om: SettingsMode, ogs: GameState, train_index: usize) -> bool {
    &&& m == om
    &&& after_arrival(gs, ogs, train_list(ogs.trains)[train_index as int].front_loc())
}


/// Screen `y` is screen `x` with the same two letters and its digit moved
/// on from `v` to `v + 1`.
pub open spec fn digit_stepped(x: DisplayState, y: DisplayState, v: int) -> bool {
    &&& x matches DisplayState::Segments(xs)
    &&& y matches DisplayState::Segments(ys)
    &&& xs[0] == ys[0] && xs[1] == ys[1]
    &&& xs[2] == ascii_segment((48 + v) as u8)
    &&& ys[2] == ascii_segment((49 + v) as u8)
}

/// A brightness setting (not the buzzer).
pub open spec fn is_brightness(s: Setting) -> bool {
    s != Setting::BuzzerEnabled
}

/// The screen of each setting shows that setting's own level. Raising
/// setting `s` by one step changes only the screen of `s`, keeping its two
/// letters and moving its digit on to the next one; lowering it at the
/// bottom leaves it showing `0`. Raising the buzzer setting flips its digit.
pub proof fn lemma_settings_display_own_level(s: Setting, t: Setting, a: GameSettings, b: GameSettings, c: GameSettings)
    requires
        a.in_range(),
        b.levels() == inc_levels(s, a.levels()),
        c.levels() == dec_levels(s, a.levels()),
    ensures
        t != s ==> settings_display(t, b) == settings_display(t, a),
        is_brightness(s) && b.levels() != a.levels() ==> exists|v: int|
            0 <= v < 9 && #[trigger] digit_stepped(settings_display(s, a), settings_display(s, b), v),
        is_brightness(s) && c.levels() == a.levels() ==> (settings_display(s, a) matches DisplayState::Segments(xs)
            && xs[2] == ascii_segment(48)),
        s == Setting::BuzzerEnabled ==> (settings_display(s, a) matches DisplayState::Segments(xs)
            && settings_display(s, b) matches DisplayState::Segments(ys) && xs[2] != ys[2]),
{
    match s {
        Setting::DigitBrightness => {
            if b.levels() != a.levels() {
                let v = a.digit_level() as int;
                assert(b.digit_level() == v + 1);
                assert(digit_stepped(settings_display(s, a), settings_display(s, b), v));
            }
        },
        Setting::TrainBrightness => {
            if b.levels() != a.levels() {
                let v = a.car_level() as int;
                assert(b.car_level() == v + 1);
                assert(digit_stepped(settings_display(s, a), settings_display(s, b), v));
            }
        },
        Setting::PlatformBrightness => {
            if b.levels() != a.levels() {
                let v = a.platform_level() as int;
                assert(b.platform_level() == v + 1);
                assert(digit_stepped(settings_display(s, a), settings_display(s, b), v));
            }
        },
        Setting::SwitchBrightness => {
            if b.levels() != a.levels() {
                let v = a.switch_level() as int;
                assert(b.switch_level() == v + 1);
                assert(digit_stepped(settings_display(s, a), settings_display(s, b), v));
            }
        },
        Setting::BuzzerEnabled => {},
    }
}

} // verus!
