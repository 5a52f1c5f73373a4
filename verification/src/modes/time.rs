//! Time attack: up to three cargos wait with timers; the driven train must
//! pick each up and deliver it before its timer runs out.
use vstd::prelude::*;

use crate::bounded::{TIME_TIMER_SLOTS, cargo_list, cargos_new, cargos_push, cargos_slice, index_list, indices_new, indices_push, indices_remove, indices_slice, time_timer_list, time_timers_clear, time_timers_new, time_timers_push, time_timers_remove, time_timers_set, time_timers_slice, train_list, trains_insert, trains_remove, trains_slice};
use crate::cargo::{Cargo, LedPattern};
use crate::game_state::{
    lemma_trains_update, pattern_draw, platforms_after_clear, trains_after_init, trains_speed_set,
    DisplayState, GameState, SpawnKind,
};
use crate::input::{InputDirection, InputEvent};
use crate::location::NUM_PLATFORMS;
use crate::modes::delivery::{
    dropoff_choices, first_expired, has_timer, lemma_first_expired_at, lemma_first_expired_none,
    offered_into, phase_speed_for, phase_target, phases_ticked, score_digits, ticked,
    timer_removed, timers_ticked, with_dots,
};
use crate::modes::GameModeHandler;
use crate::platform::Platform;
use crate::random::{range_draw, u16_draw, Rand, RngState};
use crate::segments::{number_segments, number_table};
use crate::train::Train;

pub use crate::modes::delivery::CargoTimer;

verus! {

/// The most cargos waiting at once.
pub const MAX_CARGO: u8 = 3;

/// The fastest the train can be set to.
pub const MAX_SPEED: u8 = 15;

/// The step of speed changes.
pub const SPEED_INC: u8 = 5;

/// Ticks a timer starts with (about two minutes).
pub const TIMER_TICKS: u16 = 8000;

pub struct TimeMode {
    pub score: u16,
    pub timers: heapless::Vec<CargoTimer, TIME_TIMER_SLOTS>,
    /// The decimal points lit to show the time left (0 to 3).
    pub timer_dots: u8,
}

/// At most three timers, each for a distinct platform.
pub open spec fn time_timers_wf(ts: Seq<CargoTimer>) -> bool {
    &&& ts.len() <= MAX_CARGO
    &&& forall|j: int| 0 <= j < ts.len() ==> (#[trigger] ts[j]).platform_index < NUM_PLATFORMS
    &&& forall|i: int, j: int| 0 <= i < j < ts.len() ==> (#[trigger] ts[i]).platform_index != (#[trigger] ts[j]).platform_index
}

/// The timers after `add_platform_timer(pi)`: a new full timer unless three
/// run or platform `pi` has one.
pub open spec fn time_timer_added(ts: Seq<CargoTimer>, pi: u8) -> Seq<CargoTimer> {
    if ts.len() >= MAX_CARGO || has_timer(ts, pi) {
        ts
    } else {
        ts.push(CargoTimer { platform_index: pi, ticks_left: TIMER_TICKS })
    }
}

/// The dots after a timer reached `ticks`: half, a quarter and an eighth of
/// the time left lower them to two, one and none.
pub open spec fn step_dots(ticks: u16, dots: u8) -> u8 {
    if ticks == 4000 && dots > 2 {
        2
    } else if ticks == 2000 && dots > 1 {
        1
    } else if ticks == 1000 && dots > 0 {
        0
    } else {
        dots
    }
}

/// The dots after the first `p` timers ticked, from `dots`.
pub open spec fn time_dots(ts: Seq<CargoTimer>, p: int, dots: u8) -> u8
    decreases p,
{
    if p <= 0 {
        dots
    } else {
        step_dots(ticked(ts[p - 1]).ticks_left, time_dots(ts, p - 1, dots))
    }
}

/// Platform `p` (number `k`) takes its turn at spawning cargo: when empty
/// it draws a random `u16`, and at most 20 it offers cargo of a random
/// pattern and gets a timer. The cargo offered (if any), the timers and the
/// generator state after.
#[verifier::opaque]
pub open spec fn time_spawn_step(p: Platform, ts: Seq<CargoTimer>, k: int, s: RngState) -> (Option<Cargo>, Seq<CargoTimer>, RngState) {
    if p.empty() && u16_draw(s).0 <= 20 {
        let (pattern, s2) = pattern_draw(SpawnKind::TimedPattern, u16_draw(s).1);
        (Some(Cargo::Full(pattern)), time_timer_added(ts, k as u8), s2)
    } else {
        (None, ts, if p.empty() { u16_draw(s).1 } else { s })
    }
}

/// Platforms `k..` take their turn at spawning cargo: the cargo each offers
/// (if any), the timers and the generator state after.
#[verifier::opaque]
pub open spec fn time_spawns(ps: Seq<Platform>, ts: Seq<CargoTimer>, k: int, s: RngState) -> (Seq<Option<Cargo>>, Seq<CargoTimer>, RngState)
    decreases ps.len() - k,
{
    if k < 0 || k >= ps.len() {
        (Seq::empty(), ts, s)
    } else {
        let (o, ts2, s2) = time_spawn_step(ps[k], ts, k, s);
        let (rest, ts3, s3) = time_spawns(ps, ts2, k + 1, s2);
        (seq![o] + rest, ts3, s3)
    }
}

proof fn lemma_time_spawns_unfold(ps: Seq<Platform>, ts: Seq<CargoTimer>, k: int, s: RngState)
    ensures
        (0 <= k < ps.len()) ==> ({
            let (o, ts2, s2) = time_spawn_step(ps[k], ts, k, s);
            let rest = time_spawns(ps, ts2, k + 1, s2);
            time_spawns(ps, ts, k, s) == (seq![o] + rest.0, rest.1, rest.2)
        }),
        !(0 <= k < ps.len()) ==> time_spawns(ps, ts, k, s) == (Seq::<Option<Cargo>>::empty(), ts, s),
{
    reveal(time_spawns);
}

/// Train `t1` is train `t0` unchanged.
pub open spec fn same_train(t1: Train, t0: Train) -> bool {
    &&& t1.cars_seq() == t0.cars_seq()
    &&& t1.spare_seq() == t0.spare_seq()
    &&& t1.same_motion(t0)
}

/// Platform `p` is `o` emptied.
pub open spec fn emptied(p: Platform, o: Platform) -> bool {
    &&& p.same_display(o)
    &&& p.held() == Cargo::Empty
    &&& p.incoming() == o.incoming()
    &&& p.phase_step() == o.phase_step()
}

/// Whether the score reached a milestone that earns the train a car.
pub open spec fn time_bonus(score: u16) -> bool {
    score == 3 || score == 10 || score == 20
}

/// The stopped train (`t0` before, `t1` after) at platform `k` (`op`
/// before, `p` after): it delivers the cargo the platform asks for if it
/// carries it (a point, and a car at some scores), or loads the cargo the
/// platform offers if it has room (to be placed elsewhere, `pl`).
pub open spec fn time_transfer_step(
    t0: Train,
    t1: Train,
    op: Platform,
    p: Platform,
    ts0: Seq<CargoTimer>,
    ts1: Seq<CargoTimer>,
    sc0: u16,
    sc1: u16,
    pl0: Seq<Cargo>,
    pl1: Seq<Cargo>,
    k: int,
) -> bool {
    let c = op.held();
    let eligible = !op.empty() && t0.occupies(op.track());
    let delivered = eligible && op.incoming() && exists|j: int| 0 <= j < t0.cars_seq().len() && #[trigger] t0.cars_seq()[j].cargo == c;
    let loaded = eligible && !op.incoming() && exists|j: int| 0 <= j < t0.cars_seq().len() && #[trigger] t0.cars_seq()[j].cargo == Cargo::Empty;
    &&& !delivered && !loaded ==> same_train(t1, t0) && p == op && ts1 == ts0 && sc1 == sc0 && pl1 == pl0
    &&& delivered ==> {
        &&& sc1 == sc0.wrapping_add(1)
        &&& emptied(p, op)
        &&& timer_removed(ts1, ts0, k as u8)
        &&& pl1 == pl0
        &&& !time_bonus(sc1) ==> t1.cargo_replaced_from(t0, c, Cargo::Empty, true)
        &&& time_bonus(sc1) ==> exists|tm: Train| #[trigger] tm.cargo_replaced_from(t0, c, Cargo::Empty, true) && t1.car_added_from(tm, Cargo::Empty)
    }
    &&& loaded ==> {
        &&& sc1 == sc0
        &&& t1.cargo_replaced_from(t0, Cargo::Empty, c, true)
        &&& emptied(p, op)
        &&& timer_removed(ts1, ts0, k as u8)
        &&& pl1 == pl0.push(c)
    }
}

/// Cargos `cs` from `i` on are each asked for at a platform drawn from the
/// choices `avail` (each chosen platform leaves the choices): the platforms
/// chosen with their cargo, the timers and the generator state after.
pub open spec fn placements(cs: Seq<Cargo>, i: int, avail: Seq<int>, ts: Seq<CargoTimer>, s: RngState) -> (Seq<(int, Cargo)>, Seq<CargoTimer>, RngState)
    decreases cs.len() - i,
{
    if i < 0 || i >= cs.len() {
        (Seq::empty(), ts, s)
    } else if avail.len() == 0 {
        placements(cs, i + 1, avail, ts, s)
    } else {
        let (r, s1) = range_draw(s, 0, (avail.len() - 1) as u8);
        let idx = avail[r as int];
        let (rest, ts2, s2) = placements(cs, i + 1, avail.remove(r as int), time_timer_added(ts, idx as u8), s1);
        (seq![(idx, cs[i])] + rest, ts2, s2)
    }
}

impl Default for TimeMode {
    fn default() -> (r: Self)
        ensures
            r.score == 0,
            time_timer_list(r.timers).len() == 0,
            r.timer_dots == 3,
    {
        TimeMode { score: 0, timers: time_timers_new(), timer_dots: 3 }
    }
}

impl TimeMode {
    pub open spec fn wf(&self) -> bool {
        &&& time_timers_wf(time_timer_list(self.timers))
        &&& self.timer_dots <= 3
    }

    /// Starts a full timer for platform `platform_index`, unless three run or
    /// that platform has one.
    pub fn add_platform_timer(&mut self, platform_index: u8)
        requires
            time_timers_wf(time_timer_list(old(self).timers)),
            platform_index < NUM_PLATFORMS,
        ensures
            time_timers_wf(time_timer_list(final(self).timers)),
            time_timer_list(final(self).timers) == time_timer_added(time_timer_list(old(self).timers), platform_index),
            final(self).score == old(self).score,
            final(self).timer_dots == old(self).timer_dots,
    {
        if time_timers_slice(&self.timers).len() >= MAX_CARGO as usize {
            return;
        }
        let mut j: usize = 0;
        while j < time_timers_slice(&self.timers).len()
            invariant
                0 <= j <= time_timer_list(self.timers).len(),
                *self == *old(self),
                time_timers_wf(time_timer_list(old(self).timers)),
                forall|i: int| 0 <= i < j ==> (#[trigger] time_timer_list(self.timers)[i]).platform_index != platform_index,
            decreases time_timer_list(self.timers).len() - j,
        {
            if time_timers_slice(&self.timers)[j].platform_index == platform_index {
                return;
            }
            j += 1;
        }
        let _ = time_timers_push(&mut self.timers, CargoTimer { platform_index, ticks_left: TIMER_TICKS });
        proof {
            assert(!has_timer(time_timer_list(old(self).timers), platform_index));
            assert forall|a: int, b: int| 0 <= a < b < time_timer_list(self.timers).len() implies (#[trigger] time_timer_list(self.timers)[a]).platform_index
                != (#[trigger] time_timer_list(self.timers)[b]).platform_index by {
                if b == time_timer_list(self.timers).len() - 1 {
                    assert(time_timer_list(self.timers)[a] == time_timer_list(old(self).timers)[a]);
                }
            }
        }
    }

    /// Whether platform `platform_index` has a timer.
    pub fn has_platform_timer(&self, platform_index: u8) -> (r: bool)
        ensures
            r == has_timer(time_timer_list(self.timers), platform_index),
    {
        let mut j: usize = 0;
        while j < time_timers_slice(&self.timers).len()
            invariant
                0 <= j <= time_timer_list(self.timers).len(),
                forall|i: int| 0 <= i < j ==> (#[trigger] time_timer_list(self.timers)[i]).platform_index != platform_index,
            decreases time_timer_list(self.timers).len() - j,
        {
            if time_timers_slice(&self.timers)[j].platform_index == platform_index {
                return true;
            }
            j += 1;
        }
        false
    }

    /// Stops the timer of platform `platform_index`, which must have one.
    pub fn remove_platform_timer(&mut self, platform_index: u8)
        requires
            time_timers_wf(time_timer_list(old(self).timers)),
            has_timer(time_timer_list(old(self).timers), platform_index),
        ensures
            time_timers_wf(time_timer_list(final(self).timers)),
            timer_removed(time_timer_list(final(self).timers), time_timer_list(old(self).timers), platform_index),
            final(self).score == old(self).score,
            final(self).timer_dots == old(self).timer_dots,
    {
        let mut j: usize = 0;
        while j < time_timers_slice(&self.timers).len()
            invariant
                0 <= j <= time_timer_list(self.timers).len(),
                *self == *old(self),
                time_timers_wf(time_timer_list(old(self).timers)),
                forall|i: int| 0 <= i < j ==> (#[trigger] time_timer_list(self.timers)[i]).platform_index != platform_index,
            decreases time_timer_list(self.timers).len() - j,
        {
            if time_timers_slice(&self.timers)[j].platform_index == platform_index {
                time_timers_remove(&mut self.timers, j);
                proof {
                    assert forall|a: int, b: int| 0 <= a < b < time_timer_list(self.timers).len() implies (#[trigger] time_timer_list(self.timers)[a]).platform_index
                        != (#[trigger] time_timer_list(self.timers)[b]).platform_index by {
                        let oa = if a < j { a } else { a + 1 };
                        let ob = if b < j { b } else { b + 1 };
                        assert(time_timer_list(self.timers)[a] == time_timer_list(old(self).timers)[oa]);
                        assert(time_timer_list(self.timers)[b] == time_timer_list(old(self).timers)[ob]);
                    }
                    assert(forall|i: int| 0 <= i < time_timer_list(self.timers).len() ==> #[trigger] time_timer_list(self.timers)[i] == time_timer_list(old(self).timers)[if i < j { i } else { i + 1 }]);
                }
                return;
            }
            j += 1;
        }
    }

    /// The score in three digits with the timer dots.
    pub fn get_display(&self) -> (r: DisplayState)
        requires
            self.timer_dots <= 3,
        ensures
            r == score_digits(self.score, self.timer_dots),
    {
        let dp = crate::segments::segment_bits().dp;
        let mut segment_data: [u8; 3] = [0u8, 0u8, 0u8];
        segment_data[0] = number_segments(((self.score / 100) % 10) as usize);
        segment_data[1] = number_segments(((self.score / 10) % 10) as usize);
        segment_data[2] = number_segments((self.score % 10) as usize);
        let ghost digits = segment_data;
        let mut i: usize = 3 - self.timer_dots as usize;
        while i < 3
            invariant
                3 - self.timer_dots <= i <= 3,
                dp == 0x80u8,
                forall|k: int| 0 <= k < 3 ==> #[trigger] segment_data[k] == if k < i && k >= 3 - self.timer_dots {
                    digits[k] | 0x80u8
                } else {
                    digits[k]
                },
            decreases 3 - i,
        {
            segment_data[i] = segment_data[i] | dp;
            i += 1;
        }
        proof {
            if let DisplayState::Segments(e) = score_digits(self.score, self.timer_dots) {
                assert(segment_data =~= e);
            }
        }
        DisplayState::Segments(segment_data)
    }

    /// Ticks the timers in order; a platform whose timer reaches a blink
    /// step blinks faster and the dots drop. The first timer to run out ends
    /// the game (the later timers keep their time). Returns whether it did.
    pub fn tick_timers(&mut self, state: &mut GameState) -> (over: bool)
        requires
            old(self).wf(),
            old(state).wf(),
        ensures
            final(self).wf(),
            final(state).wf(),
            time_ticked_rel(*final(self), *final(state), *old(self), *old(state)),
            over == (first_expired(time_timer_list(old(self).timers), true, 0) < time_timer_list(old(self).timers).len()),
    {
        let ghost ts = time_timer_list(self.timers);
        let mut timer_update = false;
        let mut j: usize = 0;
        while j < time_timers_slice(&self.timers).len()
            invariant
                0 <= j <= ts.len(),
                ts == time_timer_list(old(self).timers),
                old(self).wf(),
                time_timer_list(self.timers) == timers_ticked(ts, j as int),
                self.score == old(self).score,
                self.timer_dots == time_dots(ts, j as int, old(self).timer_dots),
                self.timer_dots <= old(self).timer_dots,
                timer_update == (self.timer_dots != old(self).timer_dots),
                forall|i: int| 0 <= i < j ==> !crate::modes::delivery::expires(#[trigger] ts[i], true),
                GameState::platforms_wf(state.platforms@),
                phases_ticked(state.platforms@, old(state).platforms@, ts, j as int),
                state.rand == old(state).rand,
                train_list(state.trains) == train_list(old(state).trains),
                state.switches@ == old(state).switches@,
                state.display == old(state).display,
                state.is_over == old(state).is_over,
                state.is_paused == old(state).is_paused,
                state.redraw == old(state).redraw,
                state.settings == old(state).settings,
                state.target_mode_index == old(state).target_mode_index,
                GameState::trains_wf(train_list(state.trains)),
                GameState::switches_wf(state.switches@),
                state.rand.wf(),
            decreases ts.len() - j,
        {
            let timer = time_timers_slice(&self.timers)[j];
            let ticks = timer.ticks_left.saturating_sub(1);
            time_timers_set(&mut self.timers, j, CargoTimer { ticks_left: ticks, ..timer });
            proof {
                assert(time_timer_list(self.timers) =~= timers_ticked(ts, j + 1));
            }
            let index = timer.platform_index as usize;
            let mut platform = state.platforms[index];
            let ghost before = state.platforms@;
            if ticks == 4000 {
                platform.set_phase_speed(2);
                state.platforms.set(index, platform);
                if self.timer_dots > 2 {
                    self.timer_dots = 2;
                    timer_update = true;
                }
            } else if ticks == 2000 {
                platform.set_phase_speed(3);
                state.platforms.set(index, platform);
                if self.timer_dots > 1 {
                    self.timer_dots = 1;
                    timer_update = true;
                }
            } else if ticks == 1000 {
                platform.set_phase_speed(6);
                state.platforms.set(index, platform);
                if self.timer_dots > 0 {
                    self.timer_dots = 0;
                    timer_update = true;
                }
            } else if ticks == 0 {
                proof {
                    lemma_first_expired_at(ts, true, j as int);
                    assert forall|k: int| 0 <= k < old(state).platforms@.len() implies #[trigger] phase_target(ts, j + 1, k) == phase_target(ts, j as int, k) by {}
                }
                state.display = DisplayState::ovr();
                state.is_over = true;
                return true;
            }
            proof {
                assert forall|k: int| 0 <= k < old(state).platforms@.len() implies match #[trigger] phase_target(ts, j + 1, k) {
                    None => state.platforms@[k] == old(state).platforms@[k],
                    Some(speed) => {
                        &&& state.platforms@[k].same_display(old(state).platforms@[k])
                        &&& state.platforms@[k].held() == old(state).platforms@[k].held()
                        &&& state.platforms@[k].incoming() == old(state).platforms@[k].incoming()
                        &&& state.platforms@[k].phase_step() == speed
                    },
                } by {
                    assert(phase_target(ts, j as int, k) == phase_target(ts, j as int, k));
                    if k != index {
                        assert(state.platforms@[k] == before[k]);
                    }
                }
            }
            j += 1;
        }
        proof {
            lemma_first_expired_none(ts, true);
        }
        if timer_update {
            state.display = self.get_display();
        }
        false
    }
}

/// `(m, s)` is `(om, os)` after `tick_timers`.
pub open spec fn time_ticked_rel(m: TimeMode, s: GameState, om: TimeMode, os: GameState) -> bool {
    let ts = time_timer_list(om.timers);
    let e = first_expired(ts, true, 0);
    let p = if e < ts.len() { e + 1 } else { ts.len() as int };
    &&& time_timer_list(m.timers) == timers_ticked(ts, p)
    &&& phases_ticked(s.platforms@, os.platforms@, ts, p)
    &&& m.score == om.score
    &&& train_list(s.trains) == train_list(os.trains)
    &&& s.switches@ == os.switches@
    &&& s.rand == os.rand
    &&& s.settings == os.settings
    &&& s.redraw == os.redraw
    &&& s.is_paused == os.is_paused
    &&& s.target_mode_index == os.target_mode_index
    &&& e < ts.len() ==> {
        &&& s.is_over
        &&& s.display == DisplayState::Text([111u8, 118, 114])
        &&& m.timer_dots == time_dots(ts, e, om.timer_dots)
    }
    &&& e >= ts.len() ==> {
        let dots = time_dots(ts, ts.len() as int, om.timer_dots);
        &&& s.is_over == os.is_over
        &&& m.timer_dots == dots
        &&& s.display == if dots != om.timer_dots { score_digits(om.score, dots) } else { os.display }
    }
}

impl TimeMode {
    /// While fewer than three timers run, each empty platform in turn may
    /// offer cargo of a random pattern with a timer.
    pub fn spawn_cargos(&mut self, state: &mut GameState)
        requires
            old(self).wf(),
            old(state).wf(),
        ensures
            final(self).wf(),
            final(state).wf(),
            time_spawned_rel(*final(self), *final(state), *old(self), *old(state)),
    {
        if time_timers_slice(&self.timers).len() >= MAX_CARGO as usize {
            return;
        }
        let ghost full = time_spawns(old(state).platforms@, time_timer_list(old(self).timers), 0, old(state).rand.state);
        let ghost mut acc: Seq<Option<Cargo>> = Seq::empty();
        let mut k: usize = 0;
        while k < state.platforms.len()
            invariant
                0 <= k <= NUM_PLATFORMS,
                old(state).wf(),
                time_timer_list(old(self).timers).len() < MAX_CARGO,
                state.platforms@.len() == NUM_PLATFORMS,
                GameState::platforms_wf(state.platforms@),
                self.wf(),
                state.rand.wf(),
                self.score == old(self).score,
                self.timer_dots == old(self).timer_dots,
                acc.len() == k,
                full == time_spawns(old(state).platforms@, time_timer_list(old(self).timers), 0, old(state).rand.state),
                ({
                    let rest = time_spawns(old(state).platforms@, time_timer_list(self.timers), k as int, state.rand.state);
                    full == (acc + rest.0, rest.1, rest.2)
                }),
                forall|j: int| k <= j < NUM_PLATFORMS ==> #[trigger] state.platforms@[j] == old(state).platforms@[j],
                forall|j: int| 0 <= j < k ==> offered_into(#[trigger] state.platforms@[j], old(state).platforms@[j], acc[j]),
                train_list(state.trains) == train_list(old(state).trains),
                state.switches@ == old(state).switches@,
                state.display == old(state).display,
                state.is_over == old(state).is_over,
                state.is_paused == old(state).is_paused,
                state.redraw == old(state).redraw,
                state.settings == old(state).settings,
                state.target_mode_index == old(state).target_mode_index,
            decreases NUM_PLATFORMS - k,
        {
            let ghost step = time_spawn_step(old(state).platforms@[k as int], time_timer_list(self.timers), k as int, state.rand.state);
            proof {
                lemma_time_spawns_unfold(old(state).platforms@, time_timer_list(self.timers), k as int, state.rand.state);
            }
            self.spawn_at(state, k);
            proof {
                let rest = time_spawns(old(state).platforms@, time_timer_list(self.timers), k + 1, state.rand.state);
                acc = acc.push(step.0);
                assert(full.0 =~= acc + rest.0);
            }
            k += 1;
        }
        proof {
            lemma_time_spawns_unfold(old(state).platforms@, time_timer_list(self.timers), k as int, state.rand.state);
            assert(full.0 =~= acc);
        }
    }

    /// Platform `k` takes its turn at spawning cargo.
    fn spawn_at(&mut self, state: &mut GameState, k: usize)
        requires
            old(self).wf(),
            GameState::platforms_wf(old(state).platforms@),
            old(state).rand.wf(),
            k < NUM_PLATFORMS,
        ensures
            final(self).wf(),
            GameState::platforms_wf(final(state).platforms@),
            final(state).rand.wf(),
            ({
                let (o, ts, st) = time_spawn_step(old(state).platforms@[k as int], time_timer_list(old(self).timers), k as int, old(state).rand.state);
                &&& time_timer_list(final(self).timers) == ts
                &&& final(state).rand.state == st
                &&& final(state).platforms@ == old(state).platforms@.update(k as int, final(state).platforms@[k as int])
                &&& offered_into(final(state).platforms@[k as int], old(state).platforms@[k as int], o)
            }),
            final(self).score == old(self).score,
            final(self).timer_dots == old(self).timer_dots,
            train_list(final(state).trains) == train_list(old(state).trains),
            final(state).switches@ == old(state).switches@,
            final(state).display == old(state).display,
            final(state).is_over == old(state).is_over,
            final(state).is_paused == old(state).is_paused,
            final(state).redraw == old(state).redraw,
            final(state).settings == old(state).settings,
            final(state).target_mode_index == old(state).target_mode_index,
    {
        reveal(time_spawn_step);
        let mut platform = state.platforms[k];
        if platform.is_empty() && state.rand.get_u16() <= 20 {
            let led_pattern = match state.rand.from_range(0, 3) {
                0 => LedPattern::Blink1,
                1 => LedPattern::Blink2,
                2 => LedPattern::Blink3,
                _ => LedPattern::Solid,
            };
            platform.set_cargo_out(Cargo::Full(led_pattern));
            state.platforms.set(k, platform);
            self.add_platform_timer(k as u8);
        }
        proof {
            assert(state.platforms@ =~= old(state).platforms@.update(k as int, state.platforms@[k as int]));
        }
    }
}

/// `(m, s)` is `(om, os)` after `spawn_cargos`.
pub open spec fn time_spawned_rel(m: TimeMode, s: GameState, om: TimeMode, os: GameState) -> bool {
    let go = time_timer_list(om.timers).len() < MAX_CARGO;
    let (spawned, ts, st) = time_spawns(os.platforms@, time_timer_list(om.timers), 0, os.rand.state);
    &&& m.score == om.score
    &&& m.timer_dots == om.timer_dots
    &&& train_list(s.trains) == train_list(os.trains)
    &&& s.switches@ == os.switches@
    &&& s.display == os.display
    &&& s.is_over == os.is_over
    &&& s.is_paused == os.is_paused
    &&& s.redraw == os.redraw
    &&& s.settings == os.settings
    &&& s.target_mode_index == os.target_mode_index
    &&& !go ==> time_timer_list(m.timers) == time_timer_list(om.timers) && s.platforms@ == os.platforms@ && s.rand == os.rand
    &&& go ==> {
        &&& time_timer_list(m.timers) == ts
        &&& s.rand.state == st
        &&& s.platforms@.len() == NUM_PLATFORMS
        &&& forall|k: int| 0 <= k < NUM_PLATFORMS ==> offered_into(#[trigger] s.platforms@[k], os.platforms@[k], spawned[k])
    }
}

/// The stopped train's turns at the platforms: `tr[k]`, `tms[k]`, `scs[k]`
/// and `pls[k]` are the train, timers, score and cargos to place before the
/// turn at platform `k` (`ops[k]` before it, `ps[k]` after it).
pub open spec fn serve_trace(
    tr: Seq<Train>,
    tms: Seq<Seq<CargoTimer>>,
    scs: Seq<u16>,
    pls: Seq<Seq<Cargo>>,
    ops: Seq<Platform>,
    ps: Seq<Platform>,
    n: int,
) -> bool {
    &&& tr.len() == n + 1
    &&& tms.len() == n + 1
    &&& scs.len() == n + 1
    &&& pls.len() == n + 1
    &&& forall|k: int| #![trigger ps[k]] 0 <= k < n ==> time_transfer_step(tr[k], tr[k + 1], ops[k], ps[k], tms[k], tms[k + 1], scs[k], scs[k + 1], pls[k], pls[k + 1], k)
}

/// The stopped train `ot` took its turn at every platform of `ops`: the
/// train `t`, platforms `ps`, mode `m` and cargos to place `placed` after.
pub open spec fn served(m: TimeMode, t: Train, ps: Seq<Platform>, placed: Seq<Cargo>, om: TimeMode, ot: Train, ops: Seq<Platform>) -> bool {
    &&& m.timer_dots == om.timer_dots
    &&& ps.len() == ops.len()
    &&& exists|tr: Seq<Train>, tms: Seq<Seq<CargoTimer>>, scs: Seq<u16>, pls: Seq<Seq<Cargo>>| {
        &&& #[trigger] serve_trace(tr, tms, scs, pls, ops, ps, ops.len() as int)
        &&& tr[0] == ot
        &&& tr[ops.len() as int] == t
        &&& tms[0] == time_timer_list(om.timers)
        &&& tms[ops.len() as int] == time_timer_list(m.timers)
        &&& scs[0] == om.score
        &&& scs[ops.len() as int] == m.score
        &&& pls[0] == Seq::<Cargo>::empty()
        &&& pls[ops.len() as int] == placed
    }
}

/// The platform whose cargo is `Some` in the last of the first `n`
/// placements at platform `k`.
pub open spec fn placed_at(assign: Seq<(int, Cargo)>, n: int, k: int) -> Option<Cargo>
    decreases n,
{
    if n <= 0 {
        None
    } else if assign[n - 1].0 == k {
        Some(assign[n - 1].1)
    } else {
        placed_at(assign, n - 1, k)
    }
}

/// Placements that agree on their first `n` entries agree on where those go.
proof fn lemma_placed_at_prefix(a: Seq<(int, Cargo)>, b: Seq<(int, Cargo)>, n: int, k: int)
    requires
        0 <= n <= a.len(),
        n <= b.len(),
        forall|i: int| 0 <= i < n ==> a[i] == b[i],
    ensures
        placed_at(a, n, k) == placed_at(b, n, k),
    decreases n,
{
    if n > 0 {
        lemma_placed_at_prefix(a, b, n - 1, k);
    }
}

impl TimeMode {
    /// The stopped train's turn at platform `k`.
    fn serve_at(&mut self, train: &mut Train, platforms: &mut Vec<Platform>, k: usize, placed: &mut heapless::Vec<Cargo, NUM_PLATFORMS>)
        requires
            old(self).wf(),
            old(train).wf(),
            GameState::platforms_wf(old(platforms)@),
            k < NUM_PLATFORMS,
            cargo_list(*old(placed)).len() <= k,
        ensures
            final(self).wf(),
            final(train).wf(),
            final(train).storage().len() == old(train).storage().len(),
            old(train).storage_placed() ==> final(train).storage_placed(),
            GameState::platforms_wf(final(platforms)@),
            final(platforms)@ == old(platforms)@.update(k as int, final(platforms)@[k as int]),
            final(self).timer_dots == old(self).timer_dots,
            time_transfer_step(*old(train), *final(train), old(platforms)@[k as int], final(platforms)@[k as int], time_timer_list(old(self).timers), time_timer_list(final(self).timers), old(self).score, final(self).score, cargo_list(*old(placed)), cargo_list(*final(placed)), k as int),
    {
        let mut platform = platforms[k];
        if !platform.is_empty() && train.at_location(platform.track_location()) {
            let (platform_cargo, is_receiving) = platform.cargo();
            if is_receiving {
                if train.unload_cargo(platform_cargo) {
                    platform.clear_cargo();
                    platforms.set(k, platform);
                    if self.has_platform_timer(k as u8) {
                        self.remove_platform_timer(k as u8);
                    }
                    self.score = self.score.wrapping_add(1);
                    if self.score == 3 || self.score == 10 || self.score == 20 {
                        train.add_car(Cargo::Empty);
                    }
                }
            } else if train.load_cargo(platform_cargo) {
                platform.clear_cargo();
                platforms.set(k, platform);
                if self.has_platform_timer(k as u8) {
                    self.remove_platform_timer(k as u8);
                }
                let _ = cargos_push(placed, platform_cargo);
            }
        }
        proof {
            assert(platforms@ =~= old(platforms)@.update(k as int, platforms@[k as int]));
        }
    }

    /// The stopped train takes its turn at every platform in order; returns
    /// the cargos it loaded, to be asked for elsewhere.
    pub fn serve_platforms(&mut self, train: &mut Train, platforms: &mut Vec<Platform>) -> (placed: heapless::Vec<Cargo, NUM_PLATFORMS>)
        requires
            old(self).wf(),
            old(train).wf(),
            GameState::platforms_wf(old(platforms)@),
        ensures
            final(self).wf(),
            final(train).wf(),
            final(train).storage().len() == old(train).storage().len(),
            old(train).storage_placed() ==> final(train).storage_placed(),
            GameState::platforms_wf(final(platforms)@),
            cargo_list(placed).len() <= NUM_PLATFORMS,
            served(*final(self), *final(train), final(platforms)@, cargo_list(placed), *old(self), *old(train), old(platforms)@),
    {
        let mut placed = cargos_new();
        let ghost mut tr: Seq<Train> = seq![*train];
        let ghost mut tms: Seq<Seq<CargoTimer>> = seq![time_timer_list(self.timers)];
        let ghost mut scs: Seq<u16> = seq![self.score];
        let ghost mut pls: Seq<Seq<Cargo>> = seq![cargo_list(placed)];
        let mut k: usize = 0;
        while k < platforms.len()
            invariant
                0 <= k <= NUM_PLATFORMS,
                old(platforms)@.len() == NUM_PLATFORMS,
                platforms@.len() == NUM_PLATFORMS,
                GameState::platforms_wf(platforms@),
                self.wf(),
                train.wf(),
                train.storage().len() == old(train).storage().len(),
                old(train).storage_placed() ==> train.storage_placed(),
                self.timer_dots == old(self).timer_dots,
                cargo_list(placed).len() <= k,
                serve_trace(tr, tms, scs, pls, old(platforms)@, platforms@, k as int),
                tr[0] == *old(train),
                tms[0] == time_timer_list(old(self).timers),
                scs[0] == old(self).score,
                pls[0] == Seq::<Cargo>::empty(),
                tr[k as int] == *train,
                tms[k as int] == time_timer_list(self.timers),
                scs[k as int] == self.score,
                pls[k as int] == cargo_list(placed),
                forall|j: int| k <= j < NUM_PLATFORMS ==> #[trigger] platforms@[j] == old(platforms)@[j],
            decreases NUM_PLATFORMS - k,
        {
            let ghost before = platforms@;
            self.serve_at(train, platforms, k, &mut placed);
            proof {
                tr = tr.push(*train);
                tms = tms.push(time_timer_list(self.timers));
                scs = scs.push(self.score);
                pls = pls.push(cargo_list(placed));
                assert forall|j: int| #![trigger platforms@[j]] 0 <= j < k + 1 implies time_transfer_step(tr[j], tr[j + 1], old(platforms)@[j], platforms@[j], tms[j], tms[j + 1], scs[j], scs[j + 1], pls[j], pls[j + 1], j) by {
                    if j < k {
                        assert(platforms@[j] == before[j]);
                    }
                }
            }
            k += 1;
        }
        proof {
            assert(serve_trace(tr, tms, scs, pls, old(platforms)@, platforms@, NUM_PLATFORMS as int));
        }
        placed
    }

    /// Asks for each cargo of `placed` at a random empty platform where the
    /// train is not (each platform at most once), with a timer.
    pub fn place_cargos(&mut self, train: &Train, platforms: &mut Vec<Platform>, placed: &heapless::Vec<Cargo, NUM_PLATFORMS>, rand: &mut Rand)
        requires
            old(self).wf(),
            GameState::platforms_wf(old(platforms)@),
            old(rand).wf(),
            cargo_list(*placed).len() <= NUM_PLATFORMS,
        ensures
            final(self).wf(),
            GameState::platforms_wf(final(platforms)@),
            final(rand).wf(),
            final(self).score == old(self).score,
            final(self).timer_dots == old(self).timer_dots,
            ({
                let avail = dropoff_choices(old(platforms)@, -1, *train, NUM_PLATFORMS as int);
                let (assign, ts, st) = placements(cargo_list(*placed), 0, avail, time_timer_list(old(self).timers), old(rand).state);
                &&& time_timer_list(final(self).timers) == ts
                &&& final(rand).state == st
                &&& forall|k: int| 0 <= k < NUM_PLATFORMS ==> match #[trigger] placed_at(assign, assign.len() as int, k) {
                    None => final(platforms)@[k] == old(platforms)@[k],
                    Some(c) => {
                        &&& final(platforms)@[k].same_display(old(platforms)@[k])
                        &&& final(platforms)@[k].phase_step() == old(platforms)@[k].phase_step()
                        &&& final(platforms)@[k].held() == c
                        &&& final(platforms)@[k].incoming()
                    },
                }
            }),
    {
        let mut available = indices_new();
        let mut i: usize = 0;
        while i < platforms.len()
            invariant
                0 <= i <= platforms@.len(),
                platforms@ == old(platforms)@,
                platforms@.len() == NUM_PLATFORMS,
                index_list(available).len() == dropoff_choices(platforms@, -1, *train, i as int).len(),
                index_list(available).len() <= i,
                forall|j: int| 0 <= j < index_list(available).len() ==> #[trigger] index_list(available)[j] as int == dropoff_choices(platforms@, -1, *train, i as int)[j],
                forall|j: int| 0 <= j < index_list(available).len() ==> #[trigger] index_list(available)[j] < i,
            decreases platforms@.len() - i,
        {
            if platforms[i].is_empty() && !train.at_location(platforms[i].track_location()) {
                let _ = indices_push(&mut available, i);
            }
            i += 1;
        }
        let ghost avail0 = dropoff_choices(old(platforms)@, -1, *train, NUM_PLATFORMS as int);
        let ghost full = placements(cargo_list(*placed), 0, avail0, time_timer_list(old(self).timers), old(rand).state);
        let ghost mut acc: Seq<(int, Cargo)> = Seq::empty();
        let ghost mut av: Seq<int> = avail0;
        proof {
            assert forall|j: int| 0 <= j < av.len() implies 0 <= #[trigger] av[j] < NUM_PLATFORMS by {
                assert(index_list(available)[j] as int == av[j]);
            }
        }
        let mut c: usize = 0;
        while c < cargos_slice(placed).len()
            invariant
                0 <= c <= cargo_list(*placed).len(),
                cargo_list(*placed).len() <= NUM_PLATFORMS,
                self.wf(),
                self.score == old(self).score,
                self.timer_dots == old(self).timer_dots,
                rand.wf(),
                platforms@.len() == NUM_PLATFORMS,
                GameState::platforms_wf(platforms@),
                index_list(available).len() == av.len(),
                av.len() <= NUM_PLATFORMS,
                forall|j: int| 0 <= j < av.len() ==> #[trigger] index_list(available)[j] as int == av[j],
                forall|j: int| 0 <= j < av.len() ==> 0 <= #[trigger] av[j] < NUM_PLATFORMS,
                ({
                    let rest = placements(cargo_list(*placed), c as int, av, time_timer_list(self.timers), rand.state);
                    full == (acc + rest.0, rest.1, rest.2)
                }),
                forall|k: int| 0 <= k < NUM_PLATFORMS ==> match #[trigger] placed_at(acc, acc.len() as int, k) {
                    None => platforms@[k] == old(platforms)@[k],
                    Some(cg) => {
                        &&& platforms@[k].same_display(old(platforms)@[k])
                        &&& platforms@[k].phase_step() == old(platforms)@[k].phase_step()
                        &&& platforms@[k].held() == cg
                        &&& platforms@[k].incoming()
                    },
                },
            decreases cargo_list(*placed).len() - c,
        {
            if indices_slice(&available).len() > 0 {
                let r = rand.from_range(0, (indices_slice(&available).len() - 1) as u8) as usize;
                let index = indices_slice(&available)[r];
                let mut platform = platforms[index];
                platform.set_cargo_in(cargos_slice(placed)[c]);
                let ghost before = platforms@;
                platforms.set(index, platform);
                self.add_platform_timer(index as u8);
                let _ = indices_remove(&mut available, r);
                proof {
                    let old_acc = acc;
                    acc = acc.push((index as int, cargo_list(*placed)[c as int]));
                    let old_av = av;
                    av = av.remove(r as int);
                    assert(acc.drop_last() =~= old_acc);
                    assert forall|k: int| 0 <= k < NUM_PLATFORMS implies match #[trigger] placed_at(acc, acc.len() as int, k) {
                        None => platforms@[k] == old(platforms)@[k],
                        Some(cg) => {
                            &&& platforms@[k].same_display(old(platforms)@[k])
                            &&& platforms@[k].phase_step() == old(platforms)@[k].phase_step()
                            &&& platforms@[k].held() == cg
                            &&& platforms@[k].incoming()
                        },
                    } by {
                        lemma_placed_at_prefix(acc, old_acc, old_acc.len() as int, k);
                        assert(placed_at(old_acc, old_acc.len() as int, k) == placed_at(old_acc, old_acc.len() as int, k));
                        if k != index {
                            assert(platforms@[k] == before[k]);
                        } else {
                            assert(platforms@[k] == platform);
                        }
                    }
                    assert forall|j: int| 0 <= j < av.len() implies #[trigger] index_list(available)[j] as int == av[j] by {
                        if j < r {
                            assert(av[j] == old_av[j]);
                        } else {
                            assert(av[j] == old_av[j + 1]);
                        }
                    }
                    assert forall|j: int| 0 <= j < av.len() implies 0 <= #[trigger] av[j] < NUM_PLATFORMS by {
                        if j < r {
                            assert(av[j] == old_av[j]);
                        } else {
                            assert(av[j] == old_av[j + 1]);
                        }
                    }
                    let rest = placements(cargo_list(*placed), c + 1, av, time_timer_list(self.timers), rand.state);
                    assert(full.0 =~= acc + rest.0);
                }
            }
            c += 1;
        }
    }
}

/// `(m, s)` is `(om, os)` after the stopped train (train 0) took its turn at
/// every platform and the cargos it loaded were asked for elsewhere.
pub open spec fn time_served_rel(m: TimeMode, s: GameState, om: TimeMode, os: GameState) -> bool {
    &&& s.switches@ == os.switches@
    &&& s.settings == os.settings
    &&& s.is_over == os.is_over
    &&& s.is_paused == os.is_paused
    &&& s.redraw == os.redraw
    &&& s.target_mode_index == os.target_mode_index
    &&& m.timer_dots == om.timer_dots
    &&& train_list(s.trains).len() == train_list(os.trains).len()
    &&& forall|j: int| 1 <= j < train_list(os.trains).len() ==> #[trigger] train_list(s.trains)[j] == train_list(os.trains)[j]
    &&& s.display == if m.score != om.score { score_digits(m.score, m.timer_dots) } else { os.display }
    &&& exists|m1: TimeMode, ps1: Seq<Platform>, placed: Seq<Cargo>| {
        &&& #[trigger] served(m1, train_list(s.trains)[0], ps1, placed, om, train_list(os.trains)[0], os.platforms@)
        &&& m.score == m1.score
        &&& ({
            let avail = dropoff_choices(ps1, -1, train_list(s.trains)[0], NUM_PLATFORMS as int);
            let (assign, ts, st) = placements(placed, 0, avail, time_timer_list(m1.timers), os.rand.state);
            &&& time_timer_list(m.timers) == ts
            &&& s.rand.state == st
            &&& s.platforms@.len() == NUM_PLATFORMS
            &&& forall|k: int| 0 <= k < NUM_PLATFORMS ==> match #[trigger] placed_at(assign, assign.len() as int, k) {
                None => s.platforms@[k] == ps1[k],
                Some(c) => {
                    &&& s.platforms@[k].same_display(ps1[k])
                    &&& s.platforms@[k].phase_step() == ps1[k].phase_step()
                    &&& s.platforms@[k].held() == c
                    &&& s.platforms@[k].incoming()
                },
            }
        })
    }
}

/// `(m, s)` is `(om, os)` after the restart of a time game.
pub open spec fn time_restarted(m: TimeMode, s: GameState, om: TimeMode, os: GameState) -> bool {
    &&& m.score == 0
    &&& m.timer_dots == 3
    &&& time_timer_list(m.timers).len() == 0
    &&& !s.is_over
    &&& s.is_paused == os.is_paused
    &&& s.redraw
    &&& s.display == score_digits(0, 3)
    &&& s.settings == os.settings
    &&& s.switches@ == os.switches@
    &&& s.target_mode_index == os.target_mode_index
    &&& trains_after_init(train_list(s.trains), train_list(os.trains), os.platforms@, Cargo::Empty, 3, 5)
    &&& platforms_after_clear(s.platforms@, os.platforms@)
}

impl TimeMode {
    /// Train 0, stopped, takes its turn at every platform; the display shows
    /// a new score; the cargos it loaded are asked for elsewhere.
    pub fn serve_and_place(&mut self, state: &mut GameState)
        requires
            old(self).wf(),
            old(state).wf(),
            train_list(old(state).trains).len() >= 1,
        ensures
            final(self).wf(),
            final(state).wf(),
            time_served_rel(*final(self), *final(state), *old(self), *old(state)),
    {
        let score_before = self.score;
        let ghost before = train_list(state.trains);
        let mut train = trains_remove(&mut state.trains, 0);
        let placed = self.serve_platforms(&mut train, &mut state.platforms);
        let ghost m1 = *self;
        let ghost ps1 = state.platforms@;
        if self.score != score_before {
            state.display = self.get_display();
        }
        self.place_cargos(&train, &mut state.platforms, &placed, &mut state.rand);
        let _ = trains_insert(&mut state.trains, 0, train);
        proof {
            assert(train_list(state.trains) =~= before.update(0, train));
            lemma_trains_update(before, 0, train);
            assert(served(m1, train_list(state.trains)[0], ps1, cargo_list(placed), *old(self), train_list(old(state).trains)[0], old(state).platforms@));
        }
    }
}

impl GameModeHandler for TimeMode {
    open spec fn mode_wf(&self) -> bool {
        true
    }

    open spec fn ready(&self, trains: nat) -> bool {
        self.wf() && trains >= 1
    }

    /// One train of three empty cars (at most five), all platforms empty, no
    /// timers, score zero.
    fn on_restart(&mut self, state: &mut GameState)
        ensures
            time_restarted(*final(self), *final(state), *old(self), *old(state)),
    {
        self.score = 0;
        self.timer_dots = 3;
        time_timers_clear(&mut self.timers);
        state.is_over = false;
        state.init_trains(Cargo::Empty, 3, 5);
        state.clear_platforms();
        state.display = self.get_display();
    }

    /// The timers tick (a timer running out ends the game); cargo may spawn;
    /// a stopped train takes its turn at the platforms.
    fn on_game_tick(&mut self, state: &mut GameState)
        ensures
            exists|m1: TimeMode, s1: GameState| {
                &&& #[trigger] time_ticked_rel(m1, s1, *old(self), *old(state))
                &&& first_expired(time_timer_list(old(self).timers), true, 0) < time_timer_list(old(self).timers).len() ==> *final(self) == m1 && *final(state) == s1
                &&& first_expired(time_timer_list(old(self).timers), true, 0) >= time_timer_list(old(self).timers).len() ==> exists|m2: TimeMode, s2: GameState| {
                    &&& #[trigger] time_spawned_rel(m2, s2, m1, s1)
                    &&& train_list(s2.trains)[0].spd() != 0 ==> *final(self) == m2 && *final(state) == s2
                    &&& train_list(s2.trains)[0].spd() == 0 ==> time_served_rel(*final(self), *final(state), m2, s2)
                }
            },
    {
        if self.tick_timers(state) {
            proof {
                assert(time_ticked_rel(*self, *state, *old(self), *old(state)));
            }
            return;
        }
        let ghost m1 = *self;
        let ghost s1 = *state;
        self.spawn_cargos(state);
        let ghost m2 = *self;
        let ghost s2 = *state;
        if trains_slice(&state.trains)[0].speed() == 0 {
            self.serve_and_place(state);
        }
        proof {
            assert(time_ticked_rel(m1, s1, *old(self), *old(state)));
            assert(time_spawned_rel(m2, s2, m1, s1));
        }
    }

    /// Any event after the game is over restarts it; left and right slow
    /// down and speed up the train by 5 (at most 15).
    fn on_input_event(&mut self, event: InputEvent, state: &mut GameState)
        ensures
            exists|m0: TimeMode, s0: GameState| {
                &&& #[trigger] time_restarted_if_over(m0, s0, *old(self), *old(state))
                &&& *final(self) == m0
                &&& match event {
                    InputEvent::DirectionButtonPressed(InputDirection::Left) => {
                        let speed = train_list(s0.trains)[0].spd();
                        &&& trains_speed_set(train_list(final(state).trains), train_list(s0.trains), 0, if speed >= 5 { (speed - 5) as u8 } else { 0 })
                        &&& final(state).same_but_trains(s0)
                        &&& final(state).rand == s0.rand
                        &&& final(state).redraw == s0.redraw
                    },
                    InputEvent::DirectionButtonPressed(InputDirection::Right) => {
                        let speed = train_list(s0.trains)[0].spd();
                        &&& trains_speed_set(train_list(final(state).trains), train_list(s0.trains), 0, if speed + 5 >= 15 { 15 } else { (speed + 5) as u8 })
                        &&& final(state).same_but_trains(s0)
                        &&& final(state).rand == s0.rand
                        &&& final(state).redraw == s0.redraw
                    },
                    _ => *final(state) == s0,
                }
            },
    {
        if state.is_over {
            self.on_restart(state);
        }
        let ghost m0 = *self;
        let ghost s0 = *state;
        match event {
            InputEvent::DirectionButtonPressed(InputDirection::Left) => {
                let speed = trains_slice(&state.trains)[0].speed();
                state.set_train_speed(0, speed.saturating_sub(SPEED_INC));
            },
            InputEvent::DirectionButtonPressed(InputDirection::Right) => {
                let speed = trains_slice(&state.trains)[0].speed();
                let faster = speed.saturating_add(SPEED_INC);
                let new_speed = if faster < MAX_SPEED { faster } else { MAX_SPEED };
                state.set_train_speed(0, new_speed);
            },
            _ => {},
        }
        proof {
            assert(time_restarted_if_over(m0, s0, *old(self), *old(state)));
        }
    }

    fn on_train_advance(&mut self, train_index: usize, state: &mut GameState)
        ensures
            *final(self) == *old(self),
            *final(state) == *old(state),
    {
    }
}

/// `(m, s)` is `(om, os)` restarted if the game was over, else unchanged.
pub open spec fn time_restarted_if_over(m: TimeMode, s: GameState, om: TimeMode, os: GameState) -> bool {
    &&& os.is_over ==> time_restarted(m, s, om, os)
    &&& !os.is_over ==> m == om && s == os
}

/// A delivery in the time game scores one point, and when that point brings
/// the score to 3, 10 or 20 the train gains an empty car behind the others
/// (if it has room); at any other score it keeps its number of cars, the
/// delivered car being emptied in place.
pub proof fn lemma_time_delivery_bonus_car(
    t0: Train,
    t1: Train,
    op: Platform,
    p: Platform,
    ts0: Seq<CargoTimer>,
    ts1: Seq<CargoTimer>,
    sc0: u16,
    sc1: u16,
    pl0: Seq<Cargo>,
    pl1: Seq<Cargo>,
    k: int,
)
    requires
        t0.wf(),
        time_transfer_step(t0, t1, op, p, ts0, ts1, sc0, sc1, pl0, pl1, k),
        !op.empty(),
        t0.occupies(op.track()),
        op.incoming(),
        exists|j: int| 0 <= j < t0.cars_seq().len() && #[trigger] t0.cars_seq()[j].cargo == op.held(),
        sc0 < 65535,
    ensures
        sc1 == sc0 + 1,
        (sc1 == 3 || sc1 == 10 || sc1 == 20) && t0.cars_seq().len() < t0.cap() ==> {
            &&& t1.cars_seq().len() == t0.cars_seq().len() + 1
            &&& t1.cars_seq().last().cargo == Cargo::Empty
        },
        !(sc1 == 3 || sc1 == 10 || sc1 == 20) ==> t1.cars_seq().len() == t0.cars_seq().len(),
        t1.cars_seq().len() <= t0.cap(),
{
    let c = op.held();
    if time_bonus(sc1) {
        let tm = choose|tm: Train| #[trigger] tm.cargo_replaced_from(t0, c, Cargo::Empty, true) && t1.car_added_from(tm, Cargo::Empty);
        assert(tm.cars_seq().len() == t0.cars_seq().len());
    }
}

} // verus!
