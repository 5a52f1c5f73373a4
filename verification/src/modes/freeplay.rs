//! Free play: trains run and pick up cargo for points, and the player
//! adjusts the game with the buttons: random switching, the number of trains,
//! each train's length and speed.
use vstd::prelude::*;

use crate::bounded::{train_list, trains_len, trains_slice};
use crate::cargo::{Cargo, LedPattern};
use crate::game_state::{
    after_spawn, platforms_after_arrival, platforms_after_init, served_count, trains_after_init,
    trains_speed_set, DisplayState, GameState, SpawnKind, MAX_TRAINS, TRAIN_SIZE,
};
use crate::input::{InputDirection, InputEvent};
use crate::location::NUM_PLATFORMS;
use crate::modes::GameModeHandler;
use crate::random::Rand;
use crate::segments::{ascii_segment, segment_bits};

verus! {

/// The fastest a train can be set to.
pub const MAX_SPEED: u8 = 15;

/// The step of speed changes.
pub const SPEED_INC: u8 = 5;

/// What up and down browse.
#[derive(Clone, Copy, Debug, PartialEq, Eq, Structural)]
pub enum Setting {
    Score,
    RandomSwitching,
    Trains,
    TrainCars,
    TrainSpeed,
}

pub struct FreeplayMode {
    pub score: u16,
    pub cur_setting: Setting,
    /// The train whose length or speed is shown.
    pub cur_train_index: u8,
    /// Whether trains toggle the switches they leave (at random).
    pub random_switching: bool,
}

/// Whether `s` is about one train.
pub open spec fn per_train(s: Setting) -> bool {
    s == Setting::TrainCars || s == Setting::TrainSpeed
}

/// The display for mode `m` with trains `trains`.
pub open spec fn freeplay_display(m: FreeplayMode, trains: Seq<crate::train::Train>) -> DisplayState {
    match m.cur_setting {
        Setting::Score => DisplayState::Score(m.score),
        Setting::RandomSwitching => DisplayState::Segments(
            [ascii_segment(89), ascii_segment(82) | 0x80u8, ascii_segment(if m.random_switching { 49u8 } else { 48u8 })],
        ),
        Setting::Trains => DisplayState::Segments(
            [ascii_segment(84) | 0x80u8, 0u8, ascii_segment((48 + trains.len()) as u8)],
        ),
        Setting::TrainCars => {
            let len = trains[m.cur_train_index as int].cars_seq().len() as u8;
            DisplayState::Segments(
                [
                    ascii_segment((49 + m.cur_train_index) as u8) | 0x80u8,
                    ascii_segment((48 + len / 10) as u8),
                    ascii_segment((48 + len % 10) as u8),
                ],
            )
        },
        Setting::TrainSpeed => {
            let speed = trains[m.cur_train_index as int].spd();
            DisplayState::Segments(
                [
                    ascii_segment(85),
                    ascii_segment((49 + m.cur_train_index) as u8) | 0x80u8,
                    ascii_segment((48 + speed / 5) as u8),
                ],
            )
        },
    }
}

/// The setting and train index after browsing forward (`inc`) or back with
/// `n` trains.
pub open spec fn next_position(s: Setting, i: u8, n: int, inc: bool) -> (Setting, u8) {
    if inc {
        match s {
            Setting::Score => (Setting::RandomSwitching, i),
            Setting::RandomSwitching => (Setting::Trains, i),
            Setting::Trains => (Setting::TrainCars, 0),
            Setting::TrainCars => if i + 1 >= n { (Setting::TrainSpeed, 0) } else { (Setting::TrainCars, (i + 1) as u8) },
            Setting::TrainSpeed => if i + 1 >= n { (Setting::Score, (i + 1) as u8) } else { (Setting::TrainSpeed, (i + 1) as u8) },
        }
    } else {
        match s {
            Setting::Score => (Setting::TrainSpeed, (n - 1) as u8),
            Setting::RandomSwitching => (Setting::Score, i),
            Setting::Trains => (Setting::RandomSwitching, i),
            Setting::TrainCars => if i == 0 { (Setting::Trains, i) } else { (Setting::TrainCars, (i - 1) as u8) },
            Setting::TrainSpeed => if i == 0 { (Setting::TrainCars, (n - 1) as u8) } else { (Setting::TrainSpeed, (i - 1) as u8) },
        }
    }
}

impl Default for FreeplayMode {
    fn default() -> (r: Self)
        ensures
            r.score == 0,
            r.cur_setting == Setting::Score,
            r.cur_train_index == 0,
            r.random_switching,
    {
        FreeplayMode { score: 0, cur_setting: Setting::Score, cur_train_index: 0, random_switching: true }
    }
}

impl FreeplayMode {
    /// The mode is consistent with `n` trains: the train shown exists.
    pub open spec fn fits(&self, n: nat) -> bool {
        &&& 1 <= n <= MAX_TRAINS
        &&& per_train(self.cur_setting) ==> self.cur_train_index < n
    }

    /// What the digits show for the current setting.
    pub fn setting_display(&self, state: &GameState) -> (r: DisplayState)
        requires
            state.wf(),
            self.fits(train_list(state.trains).len()),
        ensures
            r == freeplay_display(*self, train_list(state.trains)),
    {
        let dp = segment_bits().dp;
        let mut segments: [u8; 3] = [32u8, 32u8, 32u8];
        match self.cur_setting {
            Setting::Score => {
                return DisplayState::Score(self.score);
            },
            Setting::RandomSwitching => {
                segments[0] = as1115::ascii_to_segment(89);
                segments[1] = as1115::ascii_to_segment(82) | dp;
                segments[2] = as1115::ascii_to_segment(if self.random_switching { 49 } else { 48 });
            },
            Setting::Trains => {
                let num_trains = trains_len(&state.trains) as u8;
                segments[0] = as1115::ascii_to_segment(84) | dp;
                segments[1] = 0;
                segments[2] = as1115::ascii_to_segment(48 + num_trains);
            },
            Setting::TrainCars => {
                let train_len = trains_slice(&state.trains)[self.cur_train_index as usize].len() as u8;
                segments[0] = as1115::ascii_to_segment(49 + self.cur_train_index) | dp;
                segments[1] = as1115::ascii_to_segment(48 + train_len / 10);
                segments[2] = as1115::ascii_to_segment(48 + train_len % 10);
            },
            Setting::TrainSpeed => {
                let train_speed = trains_slice(&state.trains)[self.cur_train_index as usize].speed();
                segments[0] = as1115::ascii_to_segment(85);
                segments[1] = as1115::ascii_to_segment(49 + self.cur_train_index) | dp;
                segments[2] = as1115::ascii_to_segment(48 + train_speed / SPEED_INC);
            },
        }
        proof {
            if let DisplayState::Segments(e) = freeplay_display(*self, train_list(state.trains)) {
                assert(segments =~= e);
            }
        }
        DisplayState::Segments(segments)
    }

    /// Browses to the next (`inc`) or previous setting, through each train
    /// for the per-train settings, and shows it.
    pub fn next_setting(&mut self, state: &mut GameState, inc: bool)
        requires
            old(state).wf(),
            old(self).fits(train_list(old(state).trains).len()),
        ensures
            final(self).fits(train_list(final(state).trains).len()),
            (final(self).cur_setting, final(self).cur_train_index) == next_position(old(self).cur_setting, old(self).cur_train_index, train_list(old(state).trains).len() as int, inc),
            final(self).score == old(self).score,
            final(self).random_switching == old(self).random_switching,
            *final(state) == (GameState { display: freeplay_display(*final(self), train_list(old(state).trains)), ..*old(state) }),
    {
        let n = trains_len(&state.trains) as u8;
        if inc {
            match self.cur_setting {
                Setting::Score => {
                    self.cur_setting = Setting::RandomSwitching;
                },
                Setting::RandomSwitching => {
                    self.cur_setting = Setting::Trains;
                },
                Setting::Trains => {
                    self.cur_train_index = 0;
                    self.cur_setting = Setting::TrainCars;
                },
                Setting::TrainCars => {
                    self.cur_train_index = self.cur_train_index + 1;
                    if self.cur_train_index >= n {
                        self.cur_train_index = 0;
                        self.cur_setting = Setting::TrainSpeed;
                    }
                },
                Setting::TrainSpeed => {
                    self.cur_train_index = self.cur_train_index + 1;
                    if self.cur_train_index >= n {
                        self.cur_setting = Setting::Score;
                    }
                },
            }
        } else {
            match self.cur_setting {
                Setting::Score => {
                    self.cur_train_index = n - 1;
                    self.cur_setting = Setting::TrainSpeed;
                },
                Setting::RandomSwitching => {
                    self.cur_setting = Setting::Score;
                },
                Setting::Trains => {
                    self.cur_setting = Setting::RandomSwitching;
                },
                Setting::TrainCars => {
                    if self.cur_train_index == 0 {
                        self.cur_setting = Setting::Trains;
                    } else {
                        self.cur_train_index = self.cur_train_index - 1;
                    }
                },
                Setting::TrainSpeed => {
                    if self.cur_train_index == 0 {
                        self.cur_train_index = n - 1;
                        self.cur_setting = Setting::TrainCars;
                    } else {
                        self.cur_train_index = self.cur_train_index - 1;
                    }
                },
            }
        }
        state.display = self.setting_display(state);
    }

    /// Changes the current setting up (`inc`) or down: toggles random
    /// switching, adds or removes a train, adds or removes a car of the
    /// train shown, or changes its speed by 5 (up to 15, down to 0). Then
    /// shows the setting.
    pub fn update_setting(&mut self, state: &mut GameState, inc: bool)
        requires
            old(state).wf(),
            old(self).fits(train_list(old(state).trains).len()),
        ensures
            final(state).wf(),
            final(self).fits(train_list(final(state).trains).len()),
            final(self).score == old(self).score,
            final(self).cur_setting == old(self).cur_setting,
            final(self).cur_train_index == old(self).cur_train_index,
            final(self).random_switching == (if old(self).cur_setting == Setting::RandomSwitching { !old(self).random_switching } else { old(self).random_switching }),
            final(state).display == freeplay_display(*final(self), train_list(final(state).trains)),
            final(state).platforms@ == old(state).platforms@,
            final(state).switches@ == old(state).switches@,
            final(state).settings == old(state).settings,
            final(state).is_over == old(state).is_over,
            final(state).is_paused == old(state).is_paused,
            final(state).target_mode_index == old(state).target_mode_index,
            old(self).cur_setting == Setting::Trains && !inc ==> train_list(final(state).trains) == (if train_list(old(state).trains).len() > 1 { train_list(old(state).trains).drop_last() } else { train_list(old(state).trains) }),
            old(self).cur_setting == Setting::Trains && inc ==> {
                &&& train_list(final(state).trains).take(train_list(old(state).trains).len() as int) == train_list(old(state).trains)
                &&& train_list(final(state).trains).len() == if train_list(old(state).trains).len() < MAX_TRAINS { (train_list(old(state).trains).len() + 1) as int } else { train_list(old(state).trains).len() as int }
            },
            old(self).cur_setting == Setting::TrainCars ==> {
                let i = old(self).cur_train_index as int;
                &&& final(state).redraw
                &&& train_list(final(state).trains).len() == train_list(old(state).trains).len()
                &&& forall|j: int| 0 <= j < train_list(old(state).trains).len() && j != i ==> #[trigger] train_list(final(state).trains)[j] == train_list(old(state).trains)[j]
                &&& inc ==> train_list(final(state).trains)[i].car_added_from(train_list(old(state).trains)[i], Cargo::Full(LedPattern::Solid))
                &&& !inc ==> train_list(final(state).trains)[i].car_removed_from(train_list(old(state).trains)[i])
            },
            old(self).cur_setting == Setting::TrainSpeed ==> {
                let speed = train_list(old(state).trains)[old(self).cur_train_index as int].spd();
                let i = old(self).cur_train_index as int;
                &&& final(state).redraw == old(state).redraw
                &&& inc && speed >= MAX_SPEED ==> train_list(final(state).trains) == train_list(old(state).trains)
                &&& inc && speed < MAX_SPEED ==> trains_speed_set(train_list(final(state).trains), train_list(old(state).trains), i, (speed + 5) as u8)
                &&& !inc ==> trains_speed_set(train_list(final(state).trains), train_list(old(state).trains), i, if speed > 5 { (speed - 5) as u8 } else { 0 })
            },
            (old(self).cur_setting == Setting::Score || old(self).cur_setting == Setting::RandomSwitching) ==> train_list(final(state).trains) == train_list(old(state).trains)
                && final(state).redraw == old(state).redraw && final(state).rand == old(state).rand,
    {
        match self.cur_setting {
            Setting::RandomSwitching => {
                self.random_switching = !self.random_switching;
            },
            Setting::Trains => {
                if inc {
                    state.add_train(Cargo::Full(LedPattern::Solid), 3, TRAIN_SIZE as u8, None);
                } else {
                    state.remove_train();
                }
            },
            Setting::TrainCars => {
                let index = self.cur_train_index as usize;
                if index < trains_len(&state.trains) {
                    if inc {
                        state.add_train_car(index, Cargo::Full(LedPattern::Solid));
                    } else {
                        state.remove_train_car(index);
                    }
                    state.redraw = true;
                }
            },
            Setting::TrainSpeed => {
                let index = self.cur_train_index as usize;
                if index < trains_len(&state.trains) {
                    let speed = trains_slice(&state.trains)[index].speed();
                    if inc {
                        if speed < MAX_SPEED {
                            state.set_train_speed(index, speed + SPEED_INC);
                        }
                    } else {
                        if speed > SPEED_INC {
                            state.set_train_speed(index, speed - SPEED_INC);
                        } else {
                            state.set_train_speed(index, 0);
                        }
                    }
                }
            },
            _ => {},
        }
        state.display = self.setting_display(state);
    }
}

impl GameModeHandler for FreeplayMode {
    open spec fn mode_wf(&self) -> bool {
        per_train(self.cur_setting) ==> self.cur_train_index == 0
    }

    open spec fn ready(&self, trains: nat) -> bool {
        self.fits(trains)
    }

    /// One train of three cars among platforms offering solid cargo; the
    /// score starts at zero.
    fn on_restart(&mut self, state: &mut GameState)
        ensures
            final(self).score == 0,
            final(self).cur_setting == old(self).cur_setting,
            final(self).cur_train_index == old(self).cur_train_index,
            final(self).random_switching == old(self).random_switching,
            final(state).display == DisplayState::Score(0),
            !final(state).is_over,
            final(state).is_paused == old(state).is_paused,
            final(state).redraw,
            final(state).settings == old(state).settings,
            final(state).switches@ == old(state).switches@,
            final(state).target_mode_index == old(state).target_mode_index,
            trains_after_init(train_list(final(state).trains), train_list(old(state).trains), old(state).platforms@, Cargo::Full(LedPattern::Solid), 3, TRAIN_SIZE as u8),
            platforms_after_init(final(state).platforms@, old(state).platforms@, Cargo::Full(LedPattern::Solid)),
    {
        self.score = 0;
        state.display = DisplayState::Score(self.score);
        state.is_over = false;
        state.init_trains(Cargo::Full(LedPattern::Solid), 3, TRAIN_SIZE as u8);
        state.init_platforms(Cargo::Full(LedPattern::Solid));
    }

    /// Empty platforms now and then offer solid cargo.
    fn on_game_tick(&mut self, state: &mut GameState)
        ensures
            *final(self) == *old(self),
            after_spawn(*final(state), *old(state), 50, SpawnKind::Solid),
    {
        state.spawn_cargo(50, SpawnKind::Solid);
    }

    /// Up and down browse the settings, left and right change the current one.
    fn on_input_event(&mut self, event: InputEvent, state: &mut GameState)
        ensures
            match event {
                InputEvent::DirectionButtonPressed(InputDirection::Up) =>
                    (final(self).cur_setting, final(self).cur_train_index) == next_position(old(self).cur_setting, old(self).cur_train_index, train_list(old(state).trains).len() as int, false),
                InputEvent::DirectionButtonPressed(InputDirection::Down) =>
                    (final(self).cur_setting, final(self).cur_train_index) == next_position(old(self).cur_setting, old(self).cur_train_index, train_list(old(state).trains).len() as int, true),
                InputEvent::DirectionButtonPressed(_) => final(self).cur_setting == old(self).cur_setting,
                _ => *final(self) == *old(self) && *final(state) == *old(state),
            },
    {
        match event {
            InputEvent::DirectionButtonPressed(InputDirection::Up) => self.next_setting(state, false),
            InputEvent::DirectionButtonPressed(InputDirection::Down) => self.next_setting(state, true),
            InputEvent::DirectionButtonPressed(InputDirection::Left) => self.update_setting(state, false),
            InputEvent::DirectionButtonPressed(InputDirection::Right) => self.update_setting(state, true),
            _ => {},
        }
    }

    /// With random switching, one random boolean decides whether the moved
    /// train toggles the switch it left; then the cargo platforms at its
    /// engine are emptied, a point each.
    fn on_train_advance(&mut self, train_index: usize, state: &mut GameState)
        ensures
            ({
                let front = train_list(old(state).trains)[train_index as int].front_loc();
                let n = served_count(old(state).platforms@, front, NUM_PLATFORMS as int);
                let score = ((old(self).score + n) % 0x1_0000) as u16;
                &&& final(self).score == score
                &&& final(self).cur_setting == old(self).cur_setting
                &&& final(self).cur_train_index == old(self).cur_train_index
                &&& final(self).random_switching == old(self).random_switching
                &&& platforms_after_arrival(final(state).platforms@, old(state).platforms@, front)
                &&& train_list(final(state).trains) == train_list(old(state).trains)
                &&& final(state).rand.state == if old(self).random_switching { old(state).rand.state.advance() } else { old(state).rand.state }
                &&& final(state).display == if n > 0 && old(self).cur_setting == Setting::Score { DisplayState::Score(score) } else { old(state).display }
            }),
    {
        if self.random_switching && state.rand.get_bool() {
            state.train_switch(train_index);
        }
        let front = trains_slice(&state.trains)[train_index].front();
        let cleared = state.clear_cargo_at(front);
        if cleared > 0 {
            self.score = self.score.wrapping_add(cleared);
            if self.cur_setting == Setting::Score {
                state.display = DisplayState::Score(self.score);
            }
        }
    }
}

} // verus!
