//! Snake: one train grows a car for every cargo it picks up; running into
//! itself ends the game. The score is the train's length.
use vstd::prelude::*;

use crate::bounded::{train_list, trains_insert, trains_remove, trains_slice};
use crate::cargo::{Cargo, LedPattern};
use crate::game_state::{
    after_spawn, lemma_trains_update, platforms_after_arrival, platforms_after_init, served_count,
    trains_after_init, DisplayState, GameState, SpawnKind, MAX_CARS,
};
use crate::input::{InputDirection, InputEvent};
use crate::location::NUM_PLATFORMS;
use crate::modes::GameModeHandler;
use crate::train::{car_behind, Train};

verus! {

pub struct SnakeMode {
    pub score: u16,
    /// Ticks while over or paused; the display alternates as it wraps.
    pub counter: u8,
}

impl Default for SnakeMode {
    fn default() -> (r: Self)
        ensures
            r.score == 0,
            r.counter == 0,
    {
        SnakeMode { score: 0, counter: 0 }
    }
}

/// Some car behind the engine is where the engine is.
pub open spec fn bites_itself(t: Train) -> bool {
    exists|k: int| 1 <= k < t.cars_seq().len() && (#[trigger] t.cars_seq()[k]).loc == t.front_loc()
}

/// `t` is `o` after `n` calls of `add_car(cargo)`: the cars added behind the
/// caboose one by one, as far as the capacity allows.
pub open spec fn grown_from(t: Train, o: Train, n: nat, cargo: Cargo) -> bool {
    let len = o.cars_seq().len();
    let target: int = if len + n <= o.cap() { (len + n) as int } else { o.cap() as int };
    &&& t.same_motion(o)
    &&& t.storage().len() == o.storage().len()
    &&& t.cars_seq().len() == target
    &&& t.cars_seq().take(len as int) == o.cars_seq()
    &&& forall|i: int| len <= i < target ==> (#[trigger] t.cars_seq()[i]).cargo == cargo
        && t.cars_seq()[i].loc == car_behind(t.cars_seq().take(i), t.dir())
}

/// Adding no car leaves a train as it is.
proof fn lemma_grown_zero(t: Train, cargo: Cargo)
    requires
        t.wf(),
    ensures
        grown_from(t, t, 0, cargo),
{
    assert(t.cars_seq().take(t.cars_seq().len() as int) =~= t.cars_seq());
}

/// Whether a car of `train` behind the engine is at the engine's location.
fn train_bites_itself(train: &Train) -> (r: bool)
    requires
        train.wf(),
    ensures
        r == bites_itself(*train),
{
    let cars = train.cars();
    let front = train.front();
    let mut i: usize = 1;
    while i < cars.len()
        invariant
            1 <= i <= cars@.len(),
            cars@ == train.cars_seq(),
            front == train.front_loc(),
            forall|k: int| 1 <= k < i ==> (#[trigger] train.cars_seq()[k]).loc != front,
        decreases cars@.len() - i,
    {
        if cars[i].loc == front {
            return true;
        }
        i += 1;
    }
    false
}

/// Adds `n` cars carrying `cargo` to `train`, one by one.
fn grow(train: &mut Train, n: u16, cargo: Cargo)
    requires
        old(train).wf(),
    ensures
        final(train).wf(),
        old(train).storage_placed() ==> final(train).storage_placed(),
        grown_from(*final(train), *old(train), n as nat, cargo),
{
    let mut i: u16 = 0;
    proof {
        lemma_grown_zero(*train, cargo);
    }
    while i < n
        invariant
            train.wf(),
            old(train).wf(),
            old(train).storage_placed() ==> train.storage_placed(),
            0 <= i <= n,
            grown_from(*train, *old(train), i as nat, cargo),
        decreases n - i,
    {
        let ghost before = *train;
        train.add_car(cargo);
        proof {
            let len = old(train).cars_seq().len();
            if before.cars_seq().len() < before.cap() {
                assert(train.cars_seq().take(before.cars_seq().len() as int) =~= before.cars_seq());
                assert(train.cars_seq().take(len as int) =~= old(train).cars_seq()) by {
                    assert(train.cars_seq().take(len as int) =~= before.cars_seq().take(len as int));
                }
                assert forall|k: int| len <= k < train.cars_seq().len() implies (#[trigger] train.cars_seq()[k]).cargo == cargo
                    && train.cars_seq()[k].loc == car_behind(train.cars_seq().take(k), train.dir()) by {
                    if k < before.cars_seq().len() {
                        assert(train.cars_seq().take(k) =~= before.cars_seq().take(k));
                    }
                }
            }
        }
        i += 1;
    }
}

impl GameModeHandler for SnakeMode {
    open spec fn mode_wf(&self) -> bool {
        true
    }

    open spec fn ready(&self, trains: nat) -> bool {
        true
    }

    /// One train of one car among platforms offering solid cargo; the score
    /// (the train's length) is one.
    fn on_restart(&mut self, state: &mut GameState)
        ensures
            snake_restarted(*final(self), *final(state), *old(self), *old(state)),
    {
        self.counter = 0;
        self.score = 1;
        state.is_over = false;
        state.is_paused = false;
        state.display = DisplayState::Score(self.score);
        state.init_trains(Cargo::Full(LedPattern::Solid), 1, MAX_CARS as u8);
        state.init_platforms(Cargo::Full(LedPattern::Solid));
    }

    /// While over or paused the display alternates between the score and
    /// the game-over (or pause) screen; otherwise empty platforms now and
    /// then offer solid cargo.
    fn on_game_tick(&mut self, state: &mut GameState)
        ensures
            snake_ticked(*final(self), *final(state), *old(self), *old(state)),
    {
        if state.is_over || state.is_paused {
            self.counter = self.counter.wrapping_add(1);
            if self.counter == 0 {
                state.display = if state.is_paused {
                    DisplayState::pause()
                } else {
                    DisplayState::ded()
                };
            } else if self.counter == 127 {
                state.display = DisplayState::Score(self.score);
            }
            return;
        }
        state.spawn_cargo(50, SpawnKind::Solid);
    }

    /// Any event after the game is over restarts it; up and down pause and
    /// resume.
    fn on_input_event(&mut self, event: InputEvent, state: &mut GameState)
        ensures
            snake_input(*final(self), *final(state), *old(self), *old(state), event),
    {
        if state.is_over {
            self.on_restart(state);
        }
        let ghost s0 = *state;
        match event {
            InputEvent::DirectionButtonPressed(InputDirection::Up) => {
                state.is_paused = !state.is_paused;
            },
            InputEvent::DirectionButtonPressed(InputDirection::Down) => {
                state.is_paused = !state.is_paused;
            },
            _ => {},
        }
        proof {
            if old(state).is_over {
                assert(snake_restarted(*self, s0, *old(self), *old(state)));
            }
        }
    }

    /// If the moved train's engine ran into one of its cars the game is over;
    /// otherwise every cargo platform at its engine is emptied and the train
    /// grows a car for each, and the score becomes its length.
    fn on_train_advance(&mut self, train_index: usize, state: &mut GameState)
        ensures
            snake_advanced(*final(self), *final(state), *old(self), *old(state), train_index),
    {
        if train_bites_itself(&trains_slice(&state.trains)[train_index]) {
            state.display = DisplayState::ded();
            state.is_over = true;
            return;
        }
        let front = trains_slice(&state.trains)[train_index].front();
        let cleared = state.clear_cargo_at(front);
        if cleared > 0 {
            let ghost before = train_list(state.trains);
            let mut train = trains_remove(&mut state.trains, train_index);
            grow(&mut train, cleared, Cargo::Full(LedPattern::Solid));
            let len = train.len();
            let _ = trains_insert(&mut state.trains, train_index, train);
            proof {
                assert(train_list(state.trains) =~= before.update(train_index as int, train));
                lemma_trains_update(before, train_index as int, train);
            }
            self.score = len as u16;
            state.display = DisplayState::Score(self.score);
        } else {
            proof {
                lemma_grown_zero(train_list(state.trains)[train_index as int], Cargo::Full(LedPattern::Solid));
            }
        }
    }
}

/// `(m, gs)` is the mode and state `(om, ogs)` restarted.
pub open spec fn snake_restarted(m: SnakeMode, gs: GameState, om: SnakeMode, ogs: GameState) -> bool {
    &&& m.counter == 0
    &&& m.score == 1
    &&& !gs.is_over
    &&& !gs.is_paused
    &&& gs.redraw
    &&& gs.display == DisplayState::Score(1)
    &&& gs.settings == ogs.settings
    &&& gs.switches@ == ogs.switches@
    &&& gs.target_mode_index == ogs.target_mode_index
    &&& trains_after_init(train_list(gs.trains), train_list(ogs.trains), ogs.platforms@, Cargo::Full(LedPattern::Solid), 1, MAX_CARS as u8)
    &&& platforms_after_init(gs.platforms@, ogs.platforms@, Cargo::Full(LedPattern::Solid))
}

/// `(m, gs)` is the mode and state `(om, ogs)` after one tick.
pub open spec fn snake_ticked(m: SnakeMode, gs: GameState, om: SnakeMode, ogs: GameState) -> bool {
    &&& m.score == om.score
    &&& (ogs.is_over || ogs.is_paused) ==> {
        let c = om.counter.wrapping_add(1);
        &&& m.counter == c
        &&& train_list(gs.trains) == train_list(ogs.trains)
        &&& gs.platforms@ == ogs.platforms@
        &&& gs.switches@ == ogs.switches@
        &&& gs.rand == ogs.rand
        &&& gs.is_over == ogs.is_over
        &&& gs.is_paused == ogs.is_paused
        &&& gs.redraw == ogs.redraw
        &&& gs.settings == ogs.settings
        &&& gs.target_mode_index == ogs.target_mode_index
        &&& gs.display == if c == 0 {
            if ogs.is_paused { DisplayState::Segments(crate::game_state::PAUSE_BYTES) } else { DisplayState::Text([100u8, 101, 100]) }
        } else if c == 127 {
            DisplayState::Score(om.score)
        } else {
            ogs.display
        }
    }
    &&& !(ogs.is_over || ogs.is_paused) ==> {
        &&& m.counter == om.counter
        &&& after_spawn(gs, ogs, 50, SpawnKind::Solid)
    }
}

/// `(m, gs)` is the mode and state `(om, ogs)` after button event `event`.
pub open spec fn snake_input(m: SnakeMode, gs: GameState, om: SnakeMode, ogs: GameState, event: InputEvent) -> bool {
    &&& !ogs.is_over ==> {
        &&& m == om
        &&& train_list(gs.trains) == train_list(ogs.trains)
        &&& gs.platforms@ == ogs.platforms@
        &&& gs.switches@ == ogs.switches@
        &&& gs.rand == ogs.rand
        &&& gs.display == ogs.display
        &&& gs.redraw == ogs.redraw
        &&& gs.settings == ogs.settings
        &&& gs.target_mode_index == ogs.target_mode_index
        &&& !gs.is_over
        &&& gs.is_paused == match event {
            InputEvent::DirectionButtonPressed(InputDirection::Up) => !ogs.is_paused,
            InputEvent::DirectionButtonPressed(InputDirection::Down) => !ogs.is_paused,
            _ => ogs.is_paused,
        }
    }
    &&& ogs.is_over ==> exists|s0: GameState| {
        &&& #[trigger] snake_restarted(m, s0, om, ogs)
        &&& gs == (GameState {
            is_paused: match event {
                InputEvent::DirectionButtonPressed(InputDirection::Up) => !s0.is_paused,
                InputEvent::DirectionButtonPressed(InputDirection::Down) => !s0.is_paused,
                _ => s0.is_paused,
            },
            ..s0
        })
    }

}

/// `(m, gs)` is the mode and state `(om, ogs)` after train `train_index` moved.
pub open spec fn snake_advanced(m: SnakeMode, gs: GameState, om: SnakeMode, ogs: GameState, train_index: usize) -> bool {
    &&& m.counter == om.counter
    &&& gs.switches@ == ogs.switches@
    &&& gs.settings == ogs.settings
    &&& gs.rand == ogs.rand
    &&& gs.redraw == ogs.redraw
    &&& gs.is_paused == ogs.is_paused
    &&& gs.target_mode_index == ogs.target_mode_index
    &&& ({
        let t = train_list(ogs.trains)[train_index as int];
        let front = t.front_loc();
        let n = served_count(ogs.platforms@, front, NUM_PLATFORMS as int);
        &&& bites_itself(t) ==> {
            &&& gs.is_over
            &&& gs.display == DisplayState::Text([100u8, 101, 100])
            &&& m.score == om.score
            &&& train_list(gs.trains) == train_list(ogs.trains)
            &&& gs.platforms@ == ogs.platforms@
        }
        &&& !bites_itself(t) ==> {
            &&& gs.is_over == ogs.is_over
            &&& platforms_after_arrival(gs.platforms@, ogs.platforms@, front)
            &&& train_list(gs.trains).len() == train_list(ogs.trains).len()
            &&& forall|j: int| 0 <= j < train_list(ogs.trains).len() && j != train_index ==> #[trigger] train_list(gs.trains)[j] == train_list(ogs.trains)[j]
            &&& grown_from(train_list(gs.trains)[train_index as int], t, n, Cargo::Full(LedPattern::Solid))
            &&& n > 0 ==> m.score == train_list(gs.trains)[train_index as int].cars_seq().len()
                && gs.display == DisplayState::Score(m.score)
            &&& n == 0 ==> m.score == om.score && gs.display == ogs.display
        }
    })
}


} // verus!
