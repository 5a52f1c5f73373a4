//! Juggle: keep two (later three) trains from colliding while they pick up
//! cargo; every pickup scores and trains speed up at score milestones.
use vstd::prelude::*;

use crate::bounded::{train_list, trains_len, trains_slice};
use crate::cargo::{Cargo, LedPattern};
use crate::game_state::{
    after_spawn, new_train, platforms_after_arrival, platforms_after_init, served_count,
    trains_after_init, trains_speed_set, DisplayState, GameState, SpawnKind, MAX_CARS, MAX_TRAINS,
};
use crate::input::{InputDirection, InputEvent};
use crate::location::{Location, NUM_PLATFORMS};
use crate::modes::GameModeHandler;
use crate::train::Train;

verus! {

/// The speed the trains start with.
pub const START_SPEED: u8 = 5;

pub struct JuggleMode {
    /// Ticks while over or paused; the display alternates as it wraps.
    pub counter: u8,
    pub score: u16,
}

impl Default for JuggleMode {
    fn default() -> (r: Self)
        ensures
            r.counter == 0,
            r.score == 0,
    {
        JuggleMode { counter: 0, score: 0 }
    }
}

/// The speed change at a score milestone other than the third train's
/// arrival: the train's index and its new speed.
pub open spec fn juggle_milestone(score: u16) -> Option<(int, u8)> {
    if score == 5 {
        Some((0, 8u8))
    } else if score == 10 {
        Some((1, 8u8))
    } else if score == 15 {
        Some((0, 11u8))
    } else if score == 20 {
        Some((1, 11u8))
    } else if score == 25 {
        Some((0, 15u8))
    } else if score == 30 {
        Some((1, 15u8))
    } else if score == 40 {
        Some((0, 8u8))
    } else if score == 45 {
        Some((1, 8u8))
    } else if score == 50 {
        Some((2, 8u8))
    } else if score == 55 {
        Some((0, 11u8))
    } else if score == 60 {
        Some((1, 11u8))
    } else if score == 65 {
        Some((2, 11u8))
    } else if score == 70 {
        Some((0, 15u8))
    } else if score == 75 {
        Some((1, 15u8))
    } else if score == 80 {
        Some((2, 15u8))
    } else {
        None
    }
}

/// Some train other than `i` has a car at `loc`.
pub open spec fn other_train_at(trains: Seq<Train>, i: int, loc: Location) -> bool {
    exists|j: int| 0 <= j < trains.len() && j != i && (#[trigger] trains[j]).occupies(loc)
}

/// Trains `ts` are trains `os` after the score reached 35: a third train of
/// five cars joins (when there is room) and the first two drop back to the
/// start speed.
pub open spec fn third_train_joined(ts: Seq<Train>, os: Seq<Train>, platforms: Seq<crate::platform::Platform>) -> bool {
    let m = os.len();
    if m < MAX_TRAINS {
        &&& ts.len() == m + 1
        &&& new_train(ts[m as int], platforms, Cargo::Full(LedPattern::Solid), 5, 5, Some(START_SPEED))
        &&& forall|j: int| 2 <= j < m ==> #[trigger] ts[j] == os[j]
        &&& forall|j: int| 0 <= j < 2 && j < m ==> (#[trigger] ts[j]).speed_set_from(os[j], START_SPEED)
    } else {
        &&& ts.len() == m
        &&& forall|j: int| 2 <= j < m ==> #[trigger] ts[j] == os[j]
        &&& forall|j: int| 0 <= j < 2 ==> (#[trigger] ts[j]).speed_set_from(os[j], START_SPEED)
    }
}

impl JuggleMode {
    /// Whether a train other than `train_index` has a car at `loc`.
    fn hits_other_train(trains: &[Train], train_index: usize, loc: Location) -> (r: bool)
        ensures
            r == other_train_at(trains@, train_index as int, loc),
    {
        let mut other: usize = 0;
        while other < trains.len()
            invariant
                0 <= other <= trains@.len(),
                forall|j: int| 0 <= j < other && j != train_index ==> !(#[trigger] trains@[j]).occupies(loc),
            decreases trains@.len() - other,
        {
            if other != train_index && trains[other].at_location(loc) {
                return true;
            }
            other += 1;
        }
        false
    }

    /// Speeds up the trains as the score milestone `score` asks; at 35 a
    /// third train joins. A milestone naming a train that is not there
    /// changes nothing.
    pub fn apply_milestone(score: u16, state: &mut GameState)
        requires
            old(state).wf(),
        ensures
            final(state).wf(),
            final(state).same_but_trains(*old(state)),
            score != 35 ==> final(state).rand == old(state).rand && final(state).redraw == old(state).redraw,
            score == 35 ==> third_train_joined(train_list(final(state).trains), train_list(old(state).trains), old(state).platforms@),
            score != 35 ==> match juggle_milestone(score) {
                Some((k, speed)) => trains_speed_set(train_list(final(state).trains), train_list(old(state).trains), k, speed),
                None => train_list(final(state).trains) == train_list(old(state).trains),
            },
    {
        let (index, speed): (usize, u8) = if score == 5 {
            (0, 8)
        } else if score == 10 {
            (1, 8)
        } else if score == 15 {
            (0, 11)
        } else if score == 20 {
            (1, 11)
        } else if score == 25 {
            (0, 15)
        } else if score == 30 {
            (1, 15)
        } else if score == 35 {
            let n = trains_len(&state.trains);
            state.add_train(Cargo::Full(LedPattern::Solid), 5, 5, Some(START_SPEED));
            let ghost added = train_list(state.trains);
            if trains_len(&state.trains) > 0 {
                state.set_train_speed(0, START_SPEED);
            }
            let ghost first = train_list(state.trains);
            if trains_len(&state.trains) > 1 {
                state.set_train_speed(1, START_SPEED);
            }
            proof {
                assert(n >= 1 ==> train_list(state.trains)[0] == first[0]);
                assert(forall|j: int| 2 <= j < train_list(state.trains).len() ==> #[trigger] train_list(state.trains)[j] == added[j]);
                if n < MAX_TRAINS {
                    if n >= 2 {
                        assert(train_list(state.trains)[n as int] == added[n as int]);
                    }
                    assert(forall|j: int| 0 <= j < n ==> #[trigger] added[j] == train_list(old(state).trains)[j]) by {
                        assert forall|j: int| 0 <= j < n implies #[trigger] added[j] == train_list(old(state).trains)[j] by {
                            assert(added.take(n as int)[j] == added[j]);
                        }
                    }
                }
            }
            return;
        } else if score == 40 {
            (0, 8)
        } else if score == 45 {
            (1, 8)
        } else if score == 50 {
            (2, 8)
        } else if score == 55 {
            (0, 11)
        } else if score == 60 {
            (1, 11)
        } else if score == 65 {
            (2, 11)
        } else if score == 70 {
            (0, 15)
        } else if score == 75 {
            (1, 15)
        } else if score == 80 {
            (2, 15)
        } else {
            return;
        };
        if index < trains_len(&state.trains) {
            state.set_train_speed(index, speed);
        }
    }
}

impl GameModeHandler for JuggleMode {
    open spec fn mode_wf(&self) -> bool {
        true
    }

    open spec fn ready(&self, trains: nat) -> bool {
        true
    }

    /// Two trains at the start speed (three and four cars) among platforms
    /// offering solid cargo; the score starts at zero.
    fn on_restart(&mut self, state: &mut GameState)
        ensures
            juggle_restarted(*final(self), *final(state), *old(self), *old(state)),
    {
        self.counter = 0;
        self.score = 0;
        state.is_over = false;
        state.is_paused = false;
        state.display = DisplayState::Score(self.score);
        state.init_trains(Cargo::Full(LedPattern::Solid), 3, MAX_CARS as u8);
        let ghost inited = train_list(state.trains);
        state.set_train_speed(0, START_SPEED);
        let ghost sped = train_list(state.trains);
        state.add_train(Cargo::Full(LedPattern::Solid), 4, 5, Some(START_SPEED));
        state.init_platforms(Cargo::Full(LedPattern::Solid));
        proof {
            assert(inited =~= seq![inited[0]]);
            assert(train_list(state.trains)[0] == train_list(state.trains).take(1)[0]);
            assert(train_list(state.trains)[0] == sped[0]);
        }
    }

    /// While over or paused the display alternates between the score and
    /// the game-over (or pause) screen; otherwise empty platforms now and
    /// then offer solid cargo.
    fn on_game_tick(&mut self, state: &mut GameState)
        ensures
            juggle_ticked(*final(self), *final(state), *old(self), *old(state)),
    {
        if state.is_over || state.is_paused {
            self.counter = self.counter.wrapping_add(1);
            if self.counter == 0 {
                state.display = if state.is_paused {
                    DisplayState::pause()
                } else {
                    DisplayState::gg()
                };
            } else if self.counter == 127 {
                state.display = DisplayState::Score(self.score);
            }
            return;
        }
        state.spawn_cargo(50, SpawnKind::Solid);
    }

    /// Any event after the game is over restarts it; up and down pause and
    /// resume.
    fn on_input_event(&mut self, event: InputEvent, state: &mut GameState)
        ensures
            juggle_input(*final(self), *final(state), *old(self), *old(state), event),
    {
        if state.is_over {
            self.on_restart(state);
        }
        let ghost s0 = *state;
        match event {
            InputEvent::DirectionButtonPressed(InputDirection::Up) => {
                state.is_paused = !state.is_paused;
            },
            InputEvent::DirectionButtonPressed(InputDirection::Down) => {
                state.is_paused = !state.is_paused;
            },
            _ => {},
        }
        proof {
            if old(state).is_over {
                assert(juggle_restarted(*self, s0, *old(self), *old(state)));
            }
        }
    }

    /// The moved train empties the cargo platforms at its engine, scoring one
    /// point each; if its engine hit another train the game is over;
    /// otherwise a new score may be a milestone.
    fn on_train_advance(&mut self, train_index: usize, state: &mut GameState)
        ensures
            juggle_advanced(*final(self), *final(state), *old(self), *old(state), train_index),
    {
        let front = trains_slice(&state.trains)[train_index].front();
        let cleared = state.clear_cargo_at(front);
        if cleared > 0 {
            self.score = self.score.wrapping_add(cleared);
            state.display = DisplayState::Score(self.score);
        }
        if Self::hits_other_train(trains_slice(&state.trains), train_index, front) {
            state.display = DisplayState::gg();
            state.is_over = true;
            return;
        }
        if cleared > 0 {
            Self::apply_milestone(self.score, state);
        }
    }
}

/// `(m, gs)` is the mode and state `(om, ogs)` restarted.
pub open spec fn juggle_restarted(m: JuggleMode, gs: GameState, om: JuggleMode, ogs: GameState) -> bool {
    &&& m.counter == 0
    &&& m.score == 0
    &&& !gs.is_over
    &&& !gs.is_paused
    &&& gs.redraw
    &&& gs.display == DisplayState::Score(0)
    &&& gs.settings == ogs.settings
    &&& gs.switches@ == ogs.switches@
    &&& gs.target_mode_index == ogs.target_mode_index
    &&& train_list(gs.trains).len() == 2
    &&& exists|t: Train|
        trains_after_init(seq![t], train_list(ogs.trains), ogs.platforms@, Cargo::Full(LedPattern::Solid), 3, MAX_CARS as u8)
        && (#[trigger] train_list(gs.trains)[0]).speed_set_from(t, START_SPEED)
    &&& new_train(train_list(gs.trains)[1], ogs.platforms@, Cargo::Full(LedPattern::Solid), 4, 5, Some(START_SPEED))
    &&& platforms_after_init(gs.platforms@, ogs.platforms@, Cargo::Full(LedPattern::Solid))
}

/// `(m, gs)` is the mode and state `(om, ogs)` after one tick.
pub open spec fn juggle_ticked(m: JuggleMode, gs: GameState, om: JuggleMode, ogs: GameState) -> bool {
    &&& m.score == om.score
    &&& (ogs.is_over || ogs.is_paused) ==> {
        let c = om.counter.wrapping_add(1);
        &&& m.counter == c
        &&& train_list(gs.trains) == train_list(ogs.trains)
        &&& gs.platforms@ == ogs.platforms@
        &&& gs.switches@ == ogs.switches@
        &&& gs.rand == ogs.rand
        &&& gs.is_over == ogs.is_over
        &&& gs.is_paused == ogs.is_paused
        &&& gs.redraw == ogs.redraw
        &&& gs.settings == ogs.settings
        &&& gs.target_mode_index == ogs.target_mode_index
        &&& gs.display == if c == 0 {
            if ogs.is_paused { DisplayState::Segments(crate::game_state::PAUSE_BYTES) } else { DisplayState::Text([32u8, 103, 103]) }
        } else if c == 127 {
            DisplayState::Score(om.score)
        } else {
            ogs.display
        }
    }
    &&& !(ogs.is_over || ogs.is_paused) ==> {
        &&& m.counter == om.counter
        &&& after_spawn(gs, ogs, 50, SpawnKind::Solid)
    }
}

/// `(m, gs)` is the mode and state `(om, ogs)` after button event `event`.
pub open spec fn juggle_input(m: JuggleMode, gs: GameState, om: JuggleMode, ogs: GameState, event: InputEvent) -> bool {
    &&& !ogs.is_over ==> {
        &&& m == om
        &&& train_list(gs.trains) == train_list(ogs.trains)
        &&& gs.platforms@ == ogs.platforms@
        &&& gs.switches@ == ogs.switches@
        &&& gs.rand == ogs.rand
        &&& gs.display == ogs.display
        &&& gs.redraw == ogs.redraw
        &&& gs.settings == ogs.settings
        &&& gs.target_mode_index == ogs.target_mode_index
        &&& !gs.is_over
        &&& gs.is_paused == match event {
            InputEvent::DirectionButtonPressed(InputDirection::Up) => !ogs.is_paused,
            InputEvent::DirectionButtonPressed(InputDirection::Down) => !ogs.is_paused,
            _ => ogs.is_paused,
        }
    }
    &&& ogs.is_over ==> exists|s0: GameState| {
        &&& #[trigger] juggle_restarted(m, s0, om, ogs)
        &&& gs == (GameState {
            is_paused: match event {
                InputEvent::DirectionButtonPressed(InputDirection::Up) => !s0.is_paused,
                InputEvent::DirectionButtonPressed(InputDirection::Down) => !s0.is_paused,
                _ => s0.is_paused,
            },
            ..s0
        })
    }

}

/// `(m, gs)` is the mode and state `(om, ogs)` after train `train_index` moved.
pub open spec fn juggle_advanced(m: JuggleMode, gs: GameState, om: JuggleMode, ogs: GameState, train_index: usize) -> bool {
    &&& m.counter == om.counter
    &&& ({
        let front = train_list(ogs.trains)[train_index as int].front_loc();
        let n = served_count(ogs.platforms@, front, NUM_PLATFORMS as int);
        let score = ((om.score + n) % 0x1_0000) as u16;
        let hit = other_train_at(train_list(ogs.trains), train_index as int, front);
        &&& m.score == score
        &&& platforms_after_arrival(gs.platforms@, ogs.platforms@, front)
        &&& gs.switches@ == ogs.switches@
        &&& gs.settings == ogs.settings
        &&& gs.is_paused == ogs.is_paused
        &&& gs.target_mode_index == ogs.target_mode_index
        &&& gs.is_over == (ogs.is_over || hit)
        &&& hit ==> gs.display == DisplayState::Text([32u8, 103, 103])
            && train_list(gs.trains) == train_list(ogs.trains)
        &&& !hit ==> gs.display == if n > 0 { DisplayState::Score(score) } else { ogs.display }
        &&& (!hit && (n == 0 || (score != 35 && juggle_milestone(score) is None))) ==> train_list(gs.trains) == train_list(ogs.trains)
        &&& (!hit && n > 0 && score == 35) ==> third_train_joined(train_list(gs.trains), train_list(ogs.trains), gs.platforms@)
        &&& (!hit && n > 0 && score != 35) ==> match juggle_milestone(score) {
            Some((k, speed)) => trains_speed_set(train_list(gs.trains), train_list(ogs.trains), k, speed),
            None => true,
        }
    })
}


/// The milestones only ever speed a train up. They come every five points
/// from 5 to 80 (35 brings the third train instead). Before the third train
/// joins only the first two trains are sped up, taking turns, each above
/// the start speed and faster at each of its milestones than at its previous
/// one, by three, three and four; after it joins the three trains take turns
/// and climb through the same speeds again.
pub proof fn lemma_juggle_milestones_speed_up(s1: u16, s2: u16)
    ensures
        juggle_milestone(s1) matches Some((k, v)) ==> {
            &&& s1 % 5 == 0 && 5 <= s1 <= 80 && s1 != 35
            &&& START_SPEED < v <= START_SPEED + 10
            &&& (s1 < 35 ==> 0 <= k < 2) && (s1 > 35 ==> 0 <= k < 3)
        },
        s1 % 5 == 0 && 5 <= s1 <= 80 && s1 != 35 ==> juggle_milestone(s1) is Some,
        s1 < s2 && (s2 < 35 || 35 < s1) ==> match (juggle_milestone(s1), juggle_milestone(s2)) {
            (Some((k1, v1)), Some((k2, v2))) => k1 == k2 ==> v1 < v2,
            _ => true,
        },
        5 <= s1 && s1 + 5 < 35 ==> match (juggle_milestone(s1), juggle_milestone((s1 + 5) as u16)) {
            (Some((k1, v1)), Some((k2, v2))) => k1 != k2 && (k1 == 0 ==> v1 == v2),
            _ => true,
        },
        35 < s1 && s1 + 10 <= 80 ==> match (juggle_milestone(s1), juggle_milestone((s1 + 5) as u16), juggle_milestone((s1 + 10) as u16)) {
            (Some((k1, v1)), Some((k2, v2)), Some((k3, v3))) => k1 != k2 && k2 != k3 && k1 != k3 && (k1 == 0 ==> v1 == v2 && v2 == v3),
            _ => true,
        },
        juggle_milestone(5) matches Some((_, v)) && v == START_SPEED + 3,
        s1 % 10 == 5 && s1 < 35 ==> match (juggle_milestone(s1), juggle_milestone((40 + (s1 - 5) / 10 * 15) as u16)) {
            (Some((_, v1)), Some((_, v2))) => v1 == v2,
            _ => false,
        },
        s1 % 10 == 5 && s1 < 35 && s1 > 5 ==> match (juggle_milestone((s1 - 10) as u16), juggle_milestone(s1)) {
            (Some((_, v1)), Some((_, v2))) => v2 - v1 == if s1 == 25 { 4int } else { 3int },
            _ => false,
        },
{
}

} // verus!
