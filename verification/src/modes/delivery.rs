//! Delivery: drive one train to platforms offering cargo, load it, and bring
//! it to the platform asking for it. In the timed variant every cargo has a
//! timer and an expired timer ends the game.
use vstd::prelude::*;

use crate::bounded::{CARGO_TIMER_SLOTS, index_list, indices_new, indices_push, indices_slice, timer_list, timers_clear, timers_new, timers_push, timers_remove, timers_set, timers_slice, train_list, trains_insert, trains_remove, trains_slice};
use crate::cargo::{Cargo, LedPattern};
use crate::game_state::{
    approaching, cargo_platform_at, lemma_trains_update, platforms_after_clear, trains_after_init,
    trains_speed_set, DisplayState, GameState, PAUSE_BYTES,
};
use crate::input::{InputDirection, InputEvent};
use crate::location::NUM_PLATFORMS;
use crate::modes::GameModeHandler;
use crate::platform::Platform;
use crate::random::{range_draw, u16_draw, Rand, RngState};
use crate::segments::{number_segments, number_table, segment_bits};
use crate::train::Train;

verus! {

/// Ticks a cargo timer starts with (about two minutes).
pub const CARGO_TIMER_TICKS: u16 = 8000;

pub const CARGO_TIMERS_MAX_COUNT: u8 = 8;

/// Ticks during which the mode ignores the game after an event.
pub const COOLDOWN_TICKS: u8 = 75;

/// The train the player drives.
pub const TRAIN_INDEX: usize = 0;

/// Moves ahead the automatic stop looks for a platform.
pub const TRAIN_LOOKAHEAD: u8 = 3;

pub const TRAIN_MAX_SPEED: u8 = 15;

pub const TRAIN_SPEED_INC: u8 = 5;

/// The time left for the cargo of one platform.
#[derive(Clone, Copy, Debug, PartialEq, Eq, Structural)]
pub struct CargoTimer {
    pub platform_index: u8,
    pub ticks_left: u16,
}

pub struct DeliveryMode {
    /// The display shows the game-over or pause screen rather than the score.
    pub is_alt_display: bool,
    /// The automatic stop: 0 idle, -2 or -1 stopping (braked from speed 10
    /// or 5), 2 or 1 resuming up to that many speed steps.
    pub autostop_active: i8,
    /// Ticks left during which the mode waits.
    pub cooldown_ticks_left: u8,
    pub score: u16,
    pub timers: heapless::Vec<CargoTimer, CARGO_TIMER_SLOTS>,
    /// The decimal points lit to show the least time left (0 to 3).
    pub timer_dots: u8,
    /// Whether expired timers end the game.
    pub timer_enabled: bool,
}

/// At most eight timers, each for a distinct platform.
pub open spec fn timers_wf(ts: Seq<CargoTimer>) -> bool {
    &&& ts.len() <= CARGO_TIMERS_MAX_COUNT
    &&& forall|j: int| 0 <= j < ts.len() ==> (#[trigger] ts[j]).platform_index < NUM_PLATFORMS
    &&& forall|i: int, j: int| 0 <= i < j < ts.len() ==> (#[trigger] ts[i]).platform_index != (#[trigger] ts[j]).platform_index
}

/// Some timer runs for platform `pi`.
pub open spec fn has_timer(ts: Seq<CargoTimer>, pi: u8) -> bool {
    exists|j: int| 0 <= j < ts.len() && (#[trigger] ts[j]).platform_index == pi
}

/// The timers after `add_platform_timer(pi, ..)` with `ticks` for the cargo:
/// a new timer unless all eight run or platform `pi` has one.
pub open spec fn timer_added(ts: Seq<CargoTimer>, pi: u8, ticks: u16) -> Seq<CargoTimer> {
    if ts.len() >= CARGO_TIMERS_MAX_COUNT || has_timer(ts, pi) {
        ts
    } else {
        ts.push(CargoTimer { platform_index: pi, ticks_left: ticks })
    }
}

/// Starting a timer keeps at most eight timers, one per platform.
pub proof fn lemma_timer_added_wf(ts: Seq<CargoTimer>, pi: u8, ticks: u16)
    requires
        timers_wf(ts),
        pi < NUM_PLATFORMS,
    ensures
        timers_wf(timer_added(ts, pi, ticks)),
{
    if !(ts.len() >= CARGO_TIMERS_MAX_COUNT || has_timer(ts, pi)) {
        let n = ts.push(CargoTimer { platform_index: pi, ticks_left: ticks });
        assert forall|a: int, b: int| 0 <= a < b < n.len() implies (#[trigger] n[a]).platform_index != (#[trigger] n[b]).platform_index by {
            if b == n.len() - 1 {
                assert(n[a] == ts[a]);
            }
        }
    }
}

/// The number of timers the mode keeps running at `score` (as a byte).
pub open spec fn timer_count(score: u16) -> u8 {
    (3 + score / 7) as u8
}

/// The score a delivered cargo earns.
pub open spec fn timer_score(enabled: bool, cargo: Cargo) -> u16 {
    match cargo {
        Cargo::Full(p) => if enabled {
            match p {
                LedPattern::Blink1 => 1,
                LedPattern::Blink2 => 2,
                LedPattern::Blink3 => 3,
                _ => 0,
            }
        } else {
            1
        },
        Cargo::Empty => 0,
    }
}

/// The ticks a timer for `cargo` starts with: faster blinking, less time.
pub open spec fn timer_ticks(enabled: bool, cargo: Cargo) -> u16 {
    if enabled {
        match cargo {
            Cargo::Full(LedPattern::Blink2) => 4000,
            Cargo::Full(LedPattern::Blink3) => 2000,
            _ => CARGO_TIMER_TICKS,
        }
    } else {
        CARGO_TIMER_TICKS
    }
}

/// The chance (out of 65536) that an empty platform spawns cargo in a tick.
pub open spec fn spawn_chance(score: u16) -> u16 {
    (20 + score / 10) as u16
}

/// The cargo spawned at `score`, drawn from `s`, and the state after.
pub open spec fn cargo_draw(s: RngState, score: u16, enabled: bool) -> (Cargo, RngState) {
    if enabled {
        let count = (score / 3) as u8;
        let count = if count > 5 { 5u8 } else { count };
        let (v, s1) = range_draw(s, 0, count);
        let p = if v <= 2 {
            LedPattern::Blink1
        } else if v <= 4 {
            LedPattern::Blink2
        } else if v == 5 {
            LedPattern::Blink3
        } else {
            LedPattern::Solid
        };
        (Cargo::Full(p), s1)
    } else {
        let count = (score / 10) as u8;
        let count = if count > 3 { 3u8 } else { count };
        let (v, s1) = range_draw(s, 0, count);
        let p = if v == 0 {
            LedPattern::Blink1
        } else if v == 1 {
            LedPattern::Blink2
        } else if v == 2 {
            LedPattern::Blink3
        } else {
            LedPattern::Solid
        };
        (Cargo::Full(p), s1)
    }
}

/// The decimal points for the least time left `ticks`.
pub open spec fn dots_for(ticks: u16) -> u8 {
    if ticks <= 1000 {
        0
    } else if ticks <= 2000 {
        1
    } else if ticks <= 4000 {
        2
    } else {
        3
    }
}

/// `d` with the decimal points of its last `dots` digits lit.
pub open spec fn with_dots(d: [u8; 3], dots: u8) -> [u8; 3] {
    [
        if dots >= 3 { d[0] | 0x80u8 } else { d[0] },
        if dots >= 2 { d[1] | 0x80u8 } else { d[1] },
        if dots >= 1 { d[2] | 0x80u8 } else { d[2] },
    ]
}

/// The score as three decimal digits (hundreds first) with the timer dots.
pub open spec fn score_digits(score: u16, dots: u8) -> DisplayState {
    DisplayState::Segments(
        with_dots(
            [
                number_table()[((score / 100) % 10) as int],
                number_table()[((score / 10) % 10) as int],
                number_table()[(score % 10) as int],
            ],
            dots,
        ),
    )
}

/// The screen alternating with the score: game over, or the pause bars
/// with the timer dots.
pub open spec fn alt_display(paused: bool, dots: u8) -> DisplayState {
    if paused {
        DisplayState::Segments(with_dots(PAUSE_BYTES, dots))
    } else {
        DisplayState::Text([111u8, 118, 114])
    }
}

/// A timer one tick on.
pub open spec fn ticked(t: CargoTimer) -> CargoTimer {
    CargoTimer { ticks_left: if t.ticks_left > 0 { (t.ticks_left - 1) as u16 } else { 0 }, ..t }
}

/// The blink speed a platform takes when its timer reaches `ticks`.
pub open spec fn phase_speed_for(ticks: u16) -> Option<u8> {
    if ticks == 4000 {
        Some(2u8)
    } else if ticks == 2000 {
        Some(3u8)
    } else if ticks == 1000 {
        Some(6u8)
    } else {
        None
    }
}

/// Whether timer `t` expires on this tick (ends the game).
pub open spec fn expires(t: CargoTimer, enabled: bool) -> bool {
    enabled && ticked(t).ticks_left == 0
}

/// The index of the first timer from `k` on that expires, or the count.
pub open spec fn first_expired(ts: Seq<CargoTimer>, enabled: bool, k: int) -> int
    decreases ts.len() - k,
{
    if k < 0 || k >= ts.len() {
        ts.len() as int
    } else if expires(ts[k], enabled) {
        k
    } else {
        first_expired(ts, enabled, k + 1)
    }
}

/// The least time left among the first `n` timers once ticked (at most the
/// full timer).
pub open spec fn min_ticked(ts: Seq<CargoTimer>, n: int) -> u16
    decreases n,
{
    if n <= 0 {
        CARGO_TIMER_TICKS
    } else {
        let m = min_ticked(ts, n - 1);
        let t = ticked(ts[n - 1]).ticks_left;
        if t < m { t } else { m }
    }
}

/// The timers after ticking the first `p` of them.
pub open spec fn timers_ticked(ts: Seq<CargoTimer>, p: int) -> Seq<CargoTimer> {
    Seq::new(ts.len(), |j: int| if j < p { ticked(ts[j]) } else { ts[j] })
}

/// The blink speed platform `k` takes from the first `p` timers ticking:
/// that of the last of them for platform `k` reaching a blink step.
pub open spec fn phase_target(ts: Seq<CargoTimer>, p: int, k: int) -> Option<u8>
    decreases p,
{
    if p <= 0 {
        None
    } else if ts[p - 1].platform_index == k && phase_speed_for(ticked(ts[p - 1]).ticks_left) is Some {
        phase_speed_for(ticked(ts[p - 1]).ticks_left)
    } else {
        phase_target(ts, p - 1, k)
    }
}

/// Platforms `ps` are platforms `os` after the first `p` timers ticked: a
/// platform whose timer reached a blink step blinks at that speed.
pub open spec fn phases_ticked(ps: Seq<Platform>, os: Seq<Platform>, ts: Seq<CargoTimer>, p: int) -> bool {
    &&& ps.len() == os.len()
    &&& forall|k: int| 0 <= k < os.len() ==> match #[trigger] phase_target(ts, p, k) {
        None => ps[k] == os[k],
        Some(speed) => {
            &&& ps[k].same_display(os[k])
            &&& ps[k].held() == os[k].held()
            &&& ps[k].incoming() == os[k].incoming()
            &&& ps[k].phase_step() == speed
        },
    }
}

/// Platform `p` is `o`, with cargo `c` offered when `c` is some.
pub open spec fn offered_into(p: Platform, o: Platform, c: Option<Cargo>) -> bool {
    &&& p.same_display(o)
    &&& p.phase_step() == o.phase_step()
    &&& match c {
        Some(cargo) => p.held() == cargo && !p.incoming(),
        None => p.held() == o.held() && p.incoming() == o.incoming(),
    }
}

/// Platform `p` (number `k`) takes its turn at spawning cargo with a timer:
/// when empty it draws a random `u16`, and at most the spawn chance it offers
/// new cargo and gets a timer. The cargo offered (if any), the timers and the
/// generator state after.
#[verifier::opaque]
pub open spec fn timed_step(p: Platform, ts: Seq<CargoTimer>, k: int, s: RngState, score: u16, enabled: bool) -> (Option<Cargo>, Seq<CargoTimer>, RngState) {
    if p.empty() && u16_draw(s).0 <= spawn_chance(score) {
        let (c, s2) = cargo_draw(u16_draw(s).1, score, enabled);
        (Some(c), timer_added(ts, k as u8, timer_ticks(enabled, c)), s2)
    } else {
        (None, ts, if p.empty() { u16_draw(s).1 } else { s })
    }
}

/// Platforms `k..` take their turn at spawning cargo with timers: the cargo
/// each offers (if any), the timers and the generator state after. The turns
/// end early once more timers run than the score asks for.
#[verifier::opaque]
pub open spec fn timed_spawns(ps: Seq<Platform>, ts: Seq<CargoTimer>, k: int, s: RngState, score: u16, enabled: bool) -> (Seq<Option<Cargo>>, Seq<CargoTimer>, RngState)
    decreases ps.len() - k,
{
    if k < 0 || k >= ps.len() {
        (Seq::empty(), ts, s)
    } else {
        let (o, ts2, s2) = timed_step(ps[k], ts, k, s, score, enabled);
        if o is Some && ts2.len() > timer_count(score) {
            (seq![o] + Seq::new((ps.len() - k - 1) as nat, |i: int| None), ts2, s2)
        } else {
            let (rest, ts3, s3) = timed_spawns(ps, ts2, k + 1, s2, score, enabled);
            (seq![o] + rest, ts3, s3)
        }
    }
}

/// Train `t` can swap cargo with platform `p`: the platform holds cargo,
/// the train is at its track, and the train has a car to put it in (or the
/// cargo the platform asks for).
pub open spec fn can_transfer(p: Platform, t: Train) -> bool {
    &&& !p.empty()
    &&& t.occupies(p.track())
    &&& if p.incoming() {
        exists|k: int| 0 <= k < t.cars_seq().len() && #[trigger] t.cars_seq()[k].cargo == p.held()
    } else {
        exists|k: int| 0 <= k < t.cars_seq().len() && #[trigger] t.cars_seq()[k].cargo == Cargo::Empty
    }
}

/// The first platform from `k` on that train `t` can swap cargo with, or the count.
pub open spec fn first_transfer(ps: Seq<Platform>, t: Train, k: int) -> int
    decreases ps.len() - k,
{
    if k < 0 || k >= ps.len() {
        ps.len() as int
    } else if can_transfer(ps[k], t) {
        k
    } else {
        first_transfer(ps, t, k + 1)
    }
}

/// The platforms among the first `n` where cargo from platform `source` can
/// be asked for: empty, not the source, and not where train `t` is.
pub open spec fn dropoff_choices(ps: Seq<Platform>, source: int, t: Train, n: int) -> Seq<int>
    decreases n,
{
    if n <= 0 {
        Seq::empty()
    } else {
        let rest = dropoff_choices(ps, source, t, n - 1);
        let i = n - 1;
        if i != source && ps[i].empty() && !t.occupies(ps[i].track()) {
            rest.push(i)
        } else {
            rest
        }
    }
}

/// The effect of placing the dropoff for `cargo` from platform `source`:
/// one of the choices, drawn at random, asks for the cargo and gets a timer.
pub open spec fn dropoff_placed(
    ps: Seq<Platform>,
    ts: Seq<CargoTimer>,
    st: RngState,
    os: Seq<Platform>,
    ots: Seq<CargoTimer>,
    ost: RngState,
    source: int,
    t: Train,
    cargo: Cargo,
    enabled: bool,
) -> bool {
    let choices = dropoff_choices(os, source, t, os.len() as int);
    if choices.len() == 0 {
        ps == os && ts == ots && st == ost
    } else {
        let (r, s1) = range_draw(ost, 0, (choices.len() - 1) as u8);
        let dest = choices[r as int];
        &&& st == s1
        &&& ts == timer_added(ots, dest as u8, timer_ticks(enabled, cargo))
        &&& ps.len() == os.len()
        &&& forall|k: int| 0 <= k < os.len() && k != dest ==> #[trigger] ps[k] == os[k]
        &&& ps[dest].same_display(os[dest])
        &&& ps[dest].phase_step() == os[dest].phase_step()
        &&& ps[dest].held() == cargo
        &&& ps[dest].incoming()
    }
}

/// The blink steps of the timer are the full time halved, quartered and eighthed.
proof fn lemma_timer_shifts()
    ensures
        CARGO_TIMER_TICKS >> 1u16 == 4000,
        CARGO_TIMER_TICKS >> 2u16 == 2000,
        CARGO_TIMER_TICKS >> 3u16 == 1000,
        COOLDOWN_TICKS >> 2u8 == 18,
{
    assert(75u8 >> 2u8 == 18u8) by (bit_vector);
    assert(8000u16 >> 1u16 == 4000u16) by (bit_vector);
    assert(8000u16 >> 2u16 == 2000u16) by (bit_vector);
    assert(8000u16 >> 3u16 == 1000u16) by (bit_vector);
}

impl DeliveryMode {
    pub open spec fn wf(&self) -> bool {
        &&& timers_wf(timer_list(self.timers))
        &&& self.timer_dots <= 3
        &&& -2 <= self.autostop_active <= 2
    }

    /// A mode before its first restart.
    pub fn new(timer_enabled: bool) -> (r: Self)
        ensures
            r.wf(),
            !r.is_alt_display,
            r.autostop_active == 0,
            r.cooldown_ticks_left == 0,
            r.score == 0,
            timer_list(r.timers).len() == 0,
            r.timer_dots == 3,
            r.timer_enabled == timer_enabled,
    {
        DeliveryMode {
            is_alt_display: false,
            autostop_active: 0,
            cooldown_ticks_left: 0,
            score: 0,
            timers: timers_new(),
            timer_dots: 3,
            timer_enabled,
        }
    }

    pub fn get_timer_count(&self) -> (r: u8)
        ensures
            r == timer_count(self.score),
    {
        (3 + self.score / 7) as u8
    }

    pub fn get_timer_score(&self, cargo: Cargo) -> (r: u16)
        ensures
            r == timer_score(self.timer_enabled, cargo),
    {
        match cargo {
            Cargo::Full(led_pattern) => {
                if self.timer_enabled {
                    match led_pattern {
                        LedPattern::Blink1 => 1,
                        LedPattern::Blink2 => 2,
                        LedPattern::Blink3 => 3,
                        _ => 0,
                    }
                } else {
                    1
                }
            },
            _ => 0,
        }
    }

    pub fn get_timer_ticks(&self, cargo: Cargo) -> (r: u16)
        ensures
            r == timer_ticks(self.timer_enabled, cargo),
    {
        proof {
            lemma_timer_shifts();
        }
        if self.timer_enabled {
            match cargo {
                Cargo::Full(LedPattern::Blink1) => CARGO_TIMER_TICKS,
                Cargo::Full(LedPattern::Blink2) => CARGO_TIMER_TICKS >> 1u16,
                Cargo::Full(LedPattern::Blink3) => CARGO_TIMER_TICKS >> 2u16,
                _ => CARGO_TIMER_TICKS,
            }
        } else {
            CARGO_TIMER_TICKS
        }
    }

    /// Cargo for a new spawn: more demanding patterns as the score grows.
    pub fn spawn_cargo(&self, rand: &mut Rand) -> (r: Cargo)
        requires
            old(rand).wf(),
        ensures
            final(rand).wf(),
            (r, final(rand).state) == cargo_draw(old(rand).state, self.score, self.timer_enabled),
    {
        let divisor: u16 = if self.timer_enabled { 3 } else { 10 };
        let count = (self.score / divisor) as u8;
        if self.timer_enabled {
            let count = if count > 5 { 5 } else { count };
            let led_pattern = match rand.from_range(0, count) {
                0 | 1 | 2 => LedPattern::Blink1,
                3 | 4 => LedPattern::Blink2,
                5 => LedPattern::Blink3,
                _ => LedPattern::Solid,
            };
            Cargo::Full(led_pattern)
        } else {
            let count = if count > 3 { 3 } else { count };
            let led_pattern = match rand.from_range(0, count) {
                0 => LedPattern::Blink1,
                1 => LedPattern::Blink2,
                2 => LedPattern::Blink3,
                _ => LedPattern::Solid,
            };
            Cargo::Full(led_pattern)
        }
    }

    pub fn spawn_chance(&self) -> (r: u16)
        ensures
            r == spawn_chance(self.score),
    {
        20 + self.score / 10
    }

    /// Starts a timer for platform `platform_index`, unless all eight run or
    /// that platform has one.
    pub fn add_platform_timer(&mut self, platform_index: u8, cargo: Cargo)
        requires
            timers_wf(timer_list(old(self).timers)),
            platform_index < NUM_PLATFORMS,
        ensures
            timers_wf(timer_list(final(self).timers)),
            timer_list(final(self).timers) == timer_added(timer_list(old(self).timers), platform_index, timer_ticks(old(self).timer_enabled, cargo)),
            final(self).score == old(self).score,
            final(self).timer_enabled == old(self).timer_enabled,
            final(self).timer_dots == old(self).timer_dots,
            final(self).autostop_active == old(self).autostop_active,
            final(self).cooldown_ticks_left == old(self).cooldown_ticks_left,
            final(self).is_alt_display == old(self).is_alt_display,
    {
        if timers_slice(&self.timers).len() >= CARGO_TIMERS_MAX_COUNT as usize {
            return;
        }
        let mut j: usize = 0;
        while j < timers_slice(&self.timers).len()
            invariant
                0 <= j <= timer_list(self.timers).len(),
                *self == *old(self),
                timers_wf(timer_list(old(self).timers)),
                forall|i: int| 0 <= i < j ==> (#[trigger] timer_list(self.timers)[i]).platform_index != platform_index,
            decreases timer_list(self.timers).len() - j,
        {
            if timers_slice(&self.timers)[j].platform_index == platform_index {
                return;
            }
            j += 1;
        }
        let ticks = self.get_timer_ticks(cargo);
        let _ = timers_push(&mut self.timers, CargoTimer { platform_index, ticks_left: ticks });
        proof {
            assert(!has_timer(timer_list(old(self).timers), platform_index));
            assert forall|a: int, b: int| 0 <= a < b < timer_list(self.timers).len() implies (#[trigger] timer_list(self.timers)[a]).platform_index
                != (#[trigger] timer_list(self.timers)[b]).platform_index by {
                if b == timer_list(self.timers).len() - 1 {
                    assert(timer_list(self.timers)[a] == timer_list(old(self).timers)[a]);
                }
            }
        }
    }

    /// Whether platform `platform_index` has a timer.
    pub fn has_platform_timer(&self, platform_index: u8) -> (r: bool)
        ensures
            r == has_timer(timer_list(self.timers), platform_index),
    {
        let mut j: usize = 0;
        while j < timers_slice(&self.timers).len()
            invariant
                0 <= j <= timer_list(self.timers).len(),
                forall|i: int| 0 <= i < j ==> (#[trigger] timer_list(self.timers)[i]).platform_index != platform_index,
            decreases timer_list(self.timers).len() - j,
        {
            if timers_slice(&self.timers)[j].platform_index == platform_index {
                return true;
            }
            j += 1;
        }
        false
    }

    /// Stops the timer of platform `platform_index`, which must have one;
    /// returns the ticks it had left.
    pub fn remove_platform_timer(&mut self, platform_index: u8) -> (r: u16)
        requires
            timers_wf(timer_list(old(self).timers)),
            has_timer(timer_list(old(self).timers), platform_index),
        ensures
            timers_wf(timer_list(final(self).timers)),
            exists|j: int| {
                &&& 0 <= j < timer_list(old(self).timers).len()
                &&& (#[trigger] timer_list(old(self).timers)[j]).platform_index == platform_index
                &&& timer_list(final(self).timers) == timer_list(old(self).timers).remove(j)
                &&& r == timer_list(old(self).timers)[j].ticks_left
            },
            final(self).score == old(self).score,
            final(self).timer_enabled == old(self).timer_enabled,
            final(self).timer_dots == old(self).timer_dots,
            final(self).autostop_active == old(self).autostop_active,
            final(self).cooldown_ticks_left == old(self).cooldown_ticks_left,
            final(self).is_alt_display == old(self).is_alt_display,
    {
        let mut j: usize = 0;
        while j < timers_slice(&self.timers).len()
            invariant
                0 <= j <= timer_list(self.timers).len(),
                *self == *old(self),
                timers_wf(timer_list(old(self).timers)),
                forall|i: int| 0 <= i < j ==> (#[trigger] timer_list(self.timers)[i]).platform_index != platform_index,
            decreases timer_list(self.timers).len() - j,
        {
            if timers_slice(&self.timers)[j].platform_index == platform_index {
                let timer = timers_remove(&mut self.timers, j);
                proof {
                    assert forall|a: int, b: int| 0 <= a < b < timer_list(self.timers).len() implies (#[trigger] timer_list(self.timers)[a]).platform_index
                        != (#[trigger] timer_list(self.timers)[b]).platform_index by {
                        let oa = if a < j { a } else { a + 1 };
                        let ob = if b < j { b } else { b + 1 };
                        assert(timer_list(self.timers)[a] == timer_list(old(self).timers)[oa]);
                        assert(timer_list(self.timers)[b] == timer_list(old(self).timers)[ob]);
                    }
                    assert(forall|i: int| 0 <= i < timer_list(self.timers).len() ==> #[trigger] timer_list(self.timers)[i] == timer_list(old(self).timers)[if i < j { i } else { i + 1 }]);
                }
                return timer.ticks_left;
            }
            j += 1;
        }
        proof {
            assert(!has_timer(timer_list(old(self).timers), platform_index));
        }
        0
    }

    /// `segment_data` with the decimal points of the last `timer_dots`
    /// digits lit.
    pub fn add_timer_indicators(&self, segment_data: &mut [u8; 3])
        requires
            self.timer_dots <= 3,
        ensures
            *final(segment_data) == with_dots(*old(segment_data), self.timer_dots),
    {
        let dp = segment_bits().dp;
        let mut i: usize = 3 - self.timer_dots as usize;
        while i < 3
            invariant
                3 - self.timer_dots <= i <= 3,
                dp == 0x80u8,
                forall|k: int| 0 <= k < 3 ==> #[trigger] segment_data[k] == if k < i && k >= 3 - self.timer_dots {
                    old(segment_data)[k] | 0x80u8
                } else {
                    old(segment_data)[k]
                },
            decreases 3 - i,
        {
            segment_data[i] = segment_data[i] | dp;
            i += 1;
        }
        proof {
            assert(*segment_data =~= with_dots(*old(segment_data), self.timer_dots));
        }
    }

    /// Shows as many decimal points as the least time left `ticks_left`
    /// calls for; returns whether that changed.
    pub fn update_timer_dots(&mut self, ticks_left: u16) -> (r: bool)
        ensures
            final(self).timer_dots == dots_for(ticks_left),
            r == (dots_for(ticks_left) != old(self).timer_dots),
            timer_list(final(self).timers) == timer_list(old(self).timers),
            final(self).score == old(self).score,
            final(self).timer_enabled == old(self).timer_enabled,
            final(self).autostop_active == old(self).autostop_active,
            final(self).cooldown_ticks_left == old(self).cooldown_ticks_left,
            final(self).is_alt_display == old(self).is_alt_display,
    {
        proof {
            lemma_timer_shifts();
        }
        let new_timer_dots: u8 = if ticks_left <= (CARGO_TIMER_TICKS >> 3u16) {
            0
        } else if ticks_left <= (CARGO_TIMER_TICKS >> 2u16) {
            1
        } else if ticks_left <= (CARGO_TIMER_TICKS >> 1u16) {
            2
        } else {
            3
        };
        if new_timer_dots != self.timer_dots {
            self.timer_dots = new_timer_dots;
            true
        } else {
            false
        }
    }

    /// The score in three digits with the timer dots.
    pub fn score_display(&self) -> (r: DisplayState)
        requires
            self.timer_dots <= 3,
        ensures
            r == score_digits(self.score, self.timer_dots),
    {
        let mut segment_data: [u8; 3] = [0u8, 0u8, 0u8];
        segment_data[0] = number_segments(((self.score / 100) % 10) as usize);
        segment_data[1] = number_segments(((self.score / 10) % 10) as usize);
        segment_data[2] = number_segments((self.score % 10) as usize);
        let ghost digits = segment_data;
        self.add_timer_indicators(&mut segment_data);
        proof {
            if let DisplayState::Segments(e) = score_digits(self.score, self.timer_dots) {
                assert(segment_data =~= e);
            }
        }
        DisplayState::Segments(segment_data)
    }

    /// Shows the score (`alt` false) or the game-over or pause screen, and
    /// waits a while.
    pub fn set_display(&mut self, state: &mut GameState, alt: bool)
        requires
            old(self).timer_dots <= 3,
        ensures
            *final(self) == (DeliveryMode { is_alt_display: alt, cooldown_ticks_left: COOLDOWN_TICKS, ..*old(self) }),
            *final(state) == (GameState {
                display: if alt { alt_display(old(state).is_paused, old(self).timer_dots) } else { score_digits(old(self).score, old(self).timer_dots) },
                ..*old(state)
            }),
    {
        state.display = if !alt {
            self.score_display()
        } else if !state.is_paused {
            DisplayState::ovr()
        } else {
            let mut segment_data = PAUSE_BYTES;
            self.add_timer_indicators(&mut segment_data);
            DisplayState::Segments(segment_data)
        };
        self.is_alt_display = alt;
        self.cooldown_ticks_left = COOLDOWN_TICKS;
    }

    /// Asks for `cargo` (just loaded at platform `source_index`) at a random
    /// empty platform other than the source and not where `train` is, and
    /// starts its timer.
    pub fn place_dropoff_for_cargo(
        &mut self,
        train: &Train,
        platforms: &mut Vec<Platform>,
        source_index: usize,
        cargo: Cargo,
        rand: &mut Rand,
    )
        requires
            timers_wf(timer_list(old(self).timers)),
            GameState::platforms_wf(old(platforms)@),
            old(rand).wf(),
        ensures
            timers_wf(timer_list(final(self).timers)),
            GameState::platforms_wf(final(platforms)@),
            final(rand).wf(),
            dropoff_placed(final(platforms)@, timer_list(final(self).timers), final(rand).state, old(platforms)@, timer_list(old(self).timers), old(rand).state, source_index as int, *train, cargo, old(self).timer_enabled),
            final(self).score == old(self).score,
            final(self).timer_enabled == old(self).timer_enabled,
            final(self).timer_dots == old(self).timer_dots,
            final(self).autostop_active == old(self).autostop_active,
            final(self).cooldown_ticks_left == old(self).cooldown_ticks_left,
            final(self).is_alt_display == old(self).is_alt_display,
    {
        let mut available = indices_new();
        let mut i: usize = 0;
        while i < platforms.len()
            invariant
                0 <= i <= platforms@.len(),
                platforms@ == old(platforms)@,
                platforms@.len() == NUM_PLATFORMS,
                index_list(available).len() == dropoff_choices(platforms@, source_index as int, *train, i as int).len(),
                index_list(available).len() <= i,
                forall|j: int| 0 <= j < index_list(available).len() ==> #[trigger] index_list(available)[j] as int == dropoff_choices(platforms@, source_index as int, *train, i as int)[j],
                forall|j: int| 0 <= j < index_list(available).len() ==> #[trigger] index_list(available)[j] < i,
            decreases platforms@.len() - i,
        {
            if i != source_index && platforms[i].is_empty() && !train.at_location(platforms[i].track_location()) {
                let _ = indices_push(&mut available, i);
            }
            i += 1;
        }
        if indices_slice(&available).len() > 0 {
            let r = rand.from_range(0, (indices_slice(&available).len() - 1) as u8) as usize;
            let dest = indices_slice(&available)[r];
            let mut platform = platforms[dest];
            platform.set_cargo_in(cargo);
            platforms.set(dest, platform);
            self.add_platform_timer(dest as u8, cargo);
        }
    }

    /// Swaps cargo between `train` and the first platform where that can be
    /// done: delivers the cargo a platform asks for (scoring, and adding a
    /// car at some scores), or loads the cargo a platform offers and asks for
    /// it elsewhere. Returns whether a swap happened.
    pub fn try_transfer_one(&mut self, train: &mut Train, platforms: &mut Vec<Platform>, rand: &mut Rand) -> (r: bool)
        requires
            old(self).wf(),
            old(train).wf(),
            GameState::platforms_wf(old(platforms)@),
            old(rand).wf(),
        ensures
            final(self).wf(),
            final(train).wf(),
            final(train).storage().len() == old(train).storage().len(),
            old(train).storage_placed() ==> final(train).storage_placed(),
            GameState::platforms_wf(final(platforms)@),
            final(rand).wf(),
            transferred(*final(self), *final(train), final(platforms)@, final(rand).state, *old(self), *old(train), old(platforms)@, old(rand).state, r),
    {
        let mut k: usize = 0;
        while k < platforms.len()
            invariant
                0 <= k <= platforms@.len(),
                old(self).wf(),
                old(train).wf(),
                *self == *old(self),
                train.wf(),
                old(train).storage_placed() ==> train.storage_placed(),
                train.cars_seq() == old(train).cars_seq(),
                train.spare_seq() == old(train).spare_seq(),
                train.same_motion(*old(train)),
                platforms@ == old(platforms)@,
                GameState::platforms_wf(platforms@),
                *rand == *old(rand),
                rand.wf(),
                forall|j: int| 0 <= j < k ==> !can_transfer(#[trigger] old(platforms)@[j], *old(train)),
            decreases platforms@.len() - k,
        {
            let ghost current = *train;
            if self.transfer_at(train, platforms, k, rand) {
                proof {
                    lemma_transfer_effect_same_train(*self, *train, platforms@, rand.state, *old(self), current, *old(train), old(platforms)@, old(rand).state, k as int);
                    lemma_first_transfer_at(old(platforms)@, *old(train), k as int);
                }
                return true;
            }
            k += 1;
        }
        proof {
            lemma_first_transfer_none(old(platforms)@, *old(train));
        }
        false
    }

    /// Ticks the timers in order; a platform whose timer reaches a blink
    /// step blinks faster. In the timed game the first timer to run out ends
    /// it (the later timers keep their time); otherwise the dots show the
    /// least time left. Returns whether the game ended.
    pub fn tick_timers(&mut self, state: &mut GameState) -> (expired: bool)
        requires
            old(self).wf(),
            old(state).wf(),
        ensures
            final(self).wf(),
            final(state).wf(),
            ticked_rel(*final(self), *final(state), *old(self), *old(state)),
            expired == (first_expired(timer_list(old(self).timers), old(self).timer_enabled, 0) < timer_list(old(self).timers).len()),
    {
        let ghost ts = timer_list(self.timers);
        let ghost en = self.timer_enabled;
        let mut min_ticks: u16 = CARGO_TIMER_TICKS;
        let mut j: usize = 0;
        while j < timers_slice(&self.timers).len()
            invariant
                0 <= j <= ts.len(),
                ts == timer_list(old(self).timers),
                en == old(self).timer_enabled,
                old(self).wf(),
                timer_list(self.timers) == timers_ticked(ts, j as int),
                self.score == old(self).score,
                self.timer_enabled == en,
                self.timer_dots == old(self).timer_dots,
                self.autostop_active == old(self).autostop_active,
                self.cooldown_ticks_left == old(self).cooldown_ticks_left,
                self.is_alt_display == old(self).is_alt_display,
                forall|i: int| 0 <= i < j ==> !expires(#[trigger] ts[i], en),
                min_ticks == min_ticked(ts, j as int),
                GameState::platforms_wf(state.platforms@),
                phases_ticked(state.platforms@, old(state).platforms@, ts, j as int),
                state.rand == old(state).rand,
                train_list(state.trains) == train_list(old(state).trains),
                state.switches@ == old(state).switches@,
                state.display == old(state).display,
                state.is_over == old(state).is_over,
                state.is_paused == old(state).is_paused,
                state.redraw == old(state).redraw,
                state.settings == old(state).settings,
                state.target_mode_index == old(state).target_mode_index,
                GameState::trains_wf(train_list(state.trains)),
                GameState::switches_wf(state.switches@),
                state.rand.wf(),
            decreases ts.len() - j,
        {
            let timer = timers_slice(&self.timers)[j];
            let ticks = timer.ticks_left.saturating_sub(1);
            timers_set(&mut self.timers, j, CargoTimer { ticks_left: ticks, ..timer });
            proof {
                assert(timer_list(self.timers) =~= timers_ticked(ts, j + 1));
            }
            let index = timer.platform_index as usize;
            let mut platform = state.platforms[index];
            let ghost before = state.platforms@;
            if ticks == 4000 {
                platform.set_phase_speed(2);
                state.platforms.set(index, platform);
            } else if ticks == 2000 {
                platform.set_phase_speed(3);
                state.platforms.set(index, platform);
            } else if ticks == 1000 {
                platform.set_phase_speed(6);
                state.platforms.set(index, platform);
            } else if self.timer_enabled && ticks == 0 {
                proof {
                    lemma_first_expired_at(ts, en, j as int);
                    assert forall|k: int| 0 <= k < old(state).platforms@.len() implies #[trigger] phase_target(ts, j + 1, k) == phase_target(ts, j as int, k) by {}
                }
                state.is_over = true;
                self.set_display(state, true);
                return true;
            }
            proof {
                assert forall|k: int| 0 <= k < old(state).platforms@.len() implies match #[trigger] phase_target(ts, j + 1, k) {
                    None => state.platforms@[k] == old(state).platforms@[k],
                    Some(speed) => {
                        &&& state.platforms@[k].same_display(old(state).platforms@[k])
                        &&& state.platforms@[k].held() == old(state).platforms@[k].held()
                        &&& state.platforms@[k].incoming() == old(state).platforms@[k].incoming()
                        &&& state.platforms@[k].phase_step() == speed
                    },
                } by {
                    assert(phase_target(ts, j as int, k) == phase_target(ts, j as int, k));
                    if k != index {
                        assert(state.platforms@[k] == before[k]);
                    }
                }
            }
            min_ticks = if ticks < min_ticks { ticks } else { min_ticks };
            j += 1;
        }
        proof {
            lemma_first_expired_none(ts, en);
        }
        if self.update_timer_dots(min_ticks) {
            state.display = self.score_display();
        }
        false
    }

    /// When fewer timers run than the score asks for, empty platforms in
    /// order may offer new cargo with a timer, until more timers run than
    /// asked for.
    #[verifier::rlimit(60)]
    pub fn spawn_timers(&mut self, state: &mut GameState)
        requires
            old(self).wf(),
            old(state).wf(),
        ensures
            final(self).wf(),
            final(state).wf(),
            spawned_rel(*final(self), *final(state), *old(self), *old(state)),
    {
        if !(timers_slice(&self.timers).len() < self.get_timer_count() as usize && timers_slice(&self.timers).len() < CARGO_TIMERS_MAX_COUNT as usize) {
            return;
        }
        let ghost full = timed_spawns(old(state).platforms@, timer_list(old(self).timers), 0, old(state).rand.state, old(self).score, old(self).timer_enabled);
        let ghost mut acc: Seq<Option<Cargo>> = Seq::empty();
        let mut k: usize = 0;
        while k < state.platforms.len()
            invariant
                0 <= k <= NUM_PLATFORMS,
                old(state).wf(),
                state.platforms@.len() == NUM_PLATFORMS,
                GameState::platforms_wf(state.platforms@),
                self.wf(),
                state.rand.wf(),
                self.score == old(self).score,
                self.timer_enabled == old(self).timer_enabled,
                self.timer_dots == old(self).timer_dots,
                self.autostop_active == old(self).autostop_active,
                self.cooldown_ticks_left == old(self).cooldown_ticks_left,
                self.is_alt_display == old(self).is_alt_display,
                acc.len() == k,
                timer_list(old(self).timers).len() < timer_count(old(self).score),
                timer_list(old(self).timers).len() < CARGO_TIMERS_MAX_COUNT,
                full == timed_spawns(old(state).platforms@, timer_list(old(self).timers), 0, old(state).rand.state, old(self).score, old(self).timer_enabled),
                ({
                    let rest = timed_spawns(old(state).platforms@, timer_list(self.timers), k as int, state.rand.state, self.score, self.timer_enabled);
                    full == (acc + rest.0, rest.1, rest.2)
                }),
                forall|j: int| k <= j < NUM_PLATFORMS ==> #[trigger] state.platforms@[j] == old(state).platforms@[j],
                forall|j: int| 0 <= j < k ==> offered_into(#[trigger] state.platforms@[j], old(state).platforms@[j], acc[j]),
                train_list(state.trains) == train_list(old(state).trains),
                state.switches@ == old(state).switches@,
                state.display == old(state).display,
                state.is_over == old(state).is_over,
                state.is_paused == old(state).is_paused,
                state.redraw == old(state).redraw,
                state.settings == old(state).settings,
                state.target_mode_index == old(state).target_mode_index,
            decreases NUM_PLATFORMS - k,
        {
            let ghost ts0 = timer_list(self.timers);
            let ghost s0 = state.rand.state;
            let ghost step = timed_step(old(state).platforms@[k as int], ts0, k as int, s0, self.score, self.timer_enabled);
            proof {
                lemma_timed_spawns_unfold(old(state).platforms@, ts0, k as int, s0, self.score, self.timer_enabled);
            }
            let spawned = self.spawn_at(state, k);
            proof {
                acc = acc.push(step.0);
            }
            if spawned && timers_slice(&self.timers).len() > self.get_timer_count() as usize {
                proof {
                    let nones = Seq::new((NUM_PLATFORMS - k - 1) as nat, |i: int| None::<Cargo>);
                    assert(full.0 =~= acc + nones);
                    assert forall|j: int| 0 <= j < NUM_PLATFORMS implies offered_into(#[trigger] state.platforms@[j], old(state).platforms@[j], full.0[j]) by {
                        if j > k {
                            assert(full.0[j] == nones[j - k - 1]);
                        } else {
                            assert(full.0[j] == acc[j]);
                        }
                    }
                }
                return;
            }
            proof {
                let rest = timed_spawns(old(state).platforms@, timer_list(self.timers), k + 1, state.rand.state, self.score, self.timer_enabled);
                assert(full.0 =~= acc + rest.0);
            }
            k += 1;
        }
        proof {
            reveal(timed_spawns);
            assert(full.0 =~= acc);
        }
    }

    /// Platform `k` takes its turn at spawning cargo with a timer; returns
    /// whether it spawned.
    fn spawn_at(&mut self, state: &mut GameState, k: usize) -> (spawned: bool)
        requires
            old(self).wf(),
            GameState::platforms_wf(old(state).platforms@),
            old(state).rand.wf(),
            k < NUM_PLATFORMS,
        ensures
            final(self).wf(),
            GameState::platforms_wf(final(state).platforms@),
            final(state).rand.wf(),
            ({
                let (o, ts, st) = timed_step(old(state).platforms@[k as int], timer_list(old(self).timers), k as int, old(state).rand.state, old(self).score, old(self).timer_enabled);
                &&& spawned == o is Some
                &&& timer_list(final(self).timers) == ts
                &&& final(state).rand.state == st
                &&& final(state).platforms@ == old(state).platforms@.update(k as int, final(state).platforms@[k as int])
                &&& offered_into(final(state).platforms@[k as int], old(state).platforms@[k as int], o)
            }),
            final(self).score == old(self).score,
            final(self).timer_enabled == old(self).timer_enabled,
            final(self).timer_dots == old(self).timer_dots,
            final(self).autostop_active == old(self).autostop_active,
            final(self).cooldown_ticks_left == old(self).cooldown_ticks_left,
            final(self).is_alt_display == old(self).is_alt_display,
            train_list(final(state).trains) == train_list(old(state).trains),
            final(state).switches@ == old(state).switches@,
            final(state).display == old(state).display,
            final(state).is_over == old(state).is_over,
            final(state).is_paused == old(state).is_paused,
            final(state).redraw == old(state).redraw,
            final(state).settings == old(state).settings,
            final(state).target_mode_index == old(state).target_mode_index,
    {
        reveal(timed_step);
        let mut platform = state.platforms[k];
        if platform.is_empty() && state.rand.get_u16() <= self.spawn_chance() {
            let cargo = self.spawn_cargo(&mut state.rand);
            platform.set_cargo_out(cargo);
            state.platforms.set(k, platform);
            self.add_platform_timer(k as u8, cargo);
            proof {
                assert(state.platforms@ =~= old(state).platforms@.update(k as int, state.platforms@[k as int]));
            }
            true
        } else {
            proof {
                assert(state.platforms@ =~= old(state).platforms@.update(k as int, state.platforms@[k as int]));
            }
            false
        }
    }

    /// The automatic stop (when the settings enable it): a train at speed 10
    /// nearing a platform with cargo brakes to 5 (at level 2); a train at
    /// speed 5 at such a platform stops. Returns whether it just stopped (the
    /// tick ends there).
    pub fn autostop(&mut self, state: &mut GameState) -> (stopped: bool)
        requires
            old(self).wf(),
            old(state).wf(),
            train_list(old(state).trains).len() >= 1,
        ensures
            final(self).wf(),
            final(state).wf(),
            autostop_rel(*final(self), *final(state), *old(self), *old(state), stopped),
    {
        let level = state.settings.autostop_level();
        if level > 0 {
            let speed = trains_slice(&state.trains)[TRAIN_INDEX].speed();
            if self.autostop_active == 0 && level >= 2 && speed == TRAIN_SPEED_INC * 2
                && state.train_approaching_platform(TRAIN_INDEX, TRAIN_LOOKAHEAD) {
                state.set_train_speed(TRAIN_INDEX, TRAIN_SPEED_INC);
                self.autostop_active = -2;
            } else if speed == TRAIN_SPEED_INC && self.autostop_active <= 0 && state.train_ready_at_platform(TRAIN_INDEX) {
                state.set_train_speed(TRAIN_INDEX, 0);
                if self.autostop_active == 0 {
                    self.autostop_active = -1;
                }
                self.cooldown_ticks_left = COOLDOWN_TICKS;
                return true;
            }
        }
        false
    }

    /// Drives the stopped train: swaps cargo when it can (else resumes after
    /// an automatic stop), or sets off again at speed 5; a resuming train
    /// speeds up by 5 until it is back at its speed.
    pub fn drive(&mut self, state: &mut GameState)
        requires
            old(self).wf(),
            old(state).wf(),
            train_list(old(state).trains).len() >= 1,
        ensures
            final(self).wf(),
            final(state).wf(),
            drive_rel(*final(self), *final(state), *old(self), *old(state)),
    {
        let speed = trains_slice(&state.trains)[TRAIN_INDEX].speed();
        proof {
            lemma_timer_shifts();
        }
        if speed == 0 {
            if self.autostop_active <= 0 {
                let ghost before = train_list(state.trains);
                let mut train = trains_remove(&mut state.trains, TRAIN_INDEX);
                let acted = self.try_transfer_one(&mut train, &mut state.platforms, &mut state.rand);
                let ghost m1 = *self;
                let _ = trains_insert(&mut state.trains, TRAIN_INDEX, train);
                proof {
                    assert(train_list(state.trains) =~= before.update(0, train));
                    lemma_trains_update(before, 0, train);
                }
                if acted {
                    state.display = self.score_display();
                    self.cooldown_ticks_left = COOLDOWN_TICKS;
                } else if self.autostop_active < 0 {
                    self.autostop_active = -self.autostop_active;
                    self.cooldown_ticks_left = COOLDOWN_TICKS;
                }
                proof {
                    assert(m1 == DeliveryMode { autostop_active: old(self).autostop_active, cooldown_ticks_left: old(self).cooldown_ticks_left, ..*self });
                    assert(transferred(m1, train_list(state.trains)[0], state.platforms@, state.rand.state, *old(self), before[0], old(state).platforms@, old(state).rand.state, acted));
                }
            } else {
                state.set_train_speed(TRAIN_INDEX, TRAIN_SPEED_INC);
                state.force_train_advance(TRAIN_INDEX);
                self.cooldown_ticks_left = COOLDOWN_TICKS;
            }
        } else if self.autostop_active > 0 {
            let target_speed = TRAIN_SPEED_INC * self.autostop_active as u8;
            if speed < target_speed {
                let new_speed = speed + TRAIN_SPEED_INC;
                state.set_train_speed(TRAIN_INDEX, new_speed);
                if new_speed < target_speed {
                    self.cooldown_ticks_left = COOLDOWN_TICKS >> 2u8;
                }
            } else {
                self.autostop_active = 0;
            }
        }
    }

    /// Swaps cargo between `train` and platform `k` if that can be done.
    fn transfer_at(&mut self, train: &mut Train, platforms: &mut Vec<Platform>, k: usize, rand: &mut Rand) -> (r: bool)
        requires
            old(self).wf(),
            old(train).wf(),
            GameState::platforms_wf(old(platforms)@),
            old(rand).wf(),
            k < old(platforms)@.len(),
        ensures
            final(self).wf(),
            final(train).wf(),
            final(train).storage().len() == old(train).storage().len(),
            old(train).storage_placed() ==> final(train).storage_placed(),
            GameState::platforms_wf(final(platforms)@),
            final(rand).wf(),
            r == can_transfer(old(platforms)@[k as int], *old(train)),
            !r ==> {
                &&& *final(self) == *old(self)
                &&& final(train).cars_seq() == old(train).cars_seq()
                &&& final(train).spare_seq() == old(train).spare_seq()
                &&& final(train).same_motion(*old(train))
                &&& final(platforms)@ == old(platforms)@
                &&& *final(rand) == *old(rand)
            },
            r ==> transfer_effect(*final(self), *final(train), final(platforms)@, final(rand).state, *old(self), *old(train), old(platforms)@, old(rand).state, k as int),
    {
        let mut platform = platforms[k];
        if platform.is_empty() || !train.at_location(platform.track_location()) {
            return false;
        }
        let (platform_cargo, is_receiving) = platform.cargo();
        if is_receiving {
            if train.unload_cargo(platform_cargo) {
                platform.clear_cargo();
                platforms.set(k, platform);
                if self.has_platform_timer(k as u8) {
                    self.remove_platform_timer(k as u8);
                }
                self.score = self.score.wrapping_add(self.get_timer_score(platform_cargo));
                if self.score == 3 || self.score == 10 || self.score == 20 || self.score == 30 {
                    train.add_car(Cargo::Empty);
                }
                return true;
            }
        } else {
            if train.load_cargo(platform_cargo) {
                platform.clear_cargo();
                platforms.set(k, platform);
                let ghost cleared = platforms@;
                if self.has_platform_timer(k as u8) {
                    self.remove_platform_timer(k as u8);
                }
                let ghost removed = timer_list(self.timers);
                self.place_dropoff_for_cargo(train, platforms, k, platform_cargo, rand);
                proof {
                    assert(cleared_at(cleared, old(platforms)@, k as int));
                    assert(timer_removed(removed, timer_list(old(self).timers), k as u8));
                }
                return true;
            }
        }
        false
    }
}

/// Platforms `ps` are `os` with platform `k` emptied.
pub open spec fn cleared_at(ps: Seq<Platform>, os: Seq<Platform>, k: int) -> bool {
    &&& ps.len() == os.len()
    &&& forall|j: int| 0 <= j < os.len() && j != k ==> #[trigger] ps[j] == os[j]
    &&& ps[k].same_display(os[k])
    &&& ps[k].held() == Cargo::Empty
    &&& ps[k].incoming() == os[k].incoming()
    &&& ps[k].phase_step() == os[k].phase_step()
}

/// Timers `ts` are `ots` without the timer of platform `pi` (if it had one).
pub open spec fn timer_removed(ts: Seq<CargoTimer>, ots: Seq<CargoTimer>, pi: u8) -> bool {
    &&& has_timer(ots, pi) ==> exists|j: int| 0 <= j < ots.len() && (#[trigger] ots[j]).platform_index == pi && ts == ots.remove(j)
    &&& !has_timer(ots, pi) ==> ts == ots
}

/// The score milestones that earn the train a car.
pub open spec fn bonus_car_score(score: u16) -> bool {
    score == 3 || score == 10 || score == 20 || score == 30
}

/// The swap of cargo between train `ot` and platform `k` of `ops`: the mode,
/// train, platforms and generator state after it.
pub open spec fn transfer_effect(
    m: DeliveryMode,
    t: Train,
    ps: Seq<Platform>,
    st: RngState,
    om: DeliveryMode,
    ot: Train,
    ops: Seq<Platform>,
    ost: RngState,
    k: int,
) -> bool {
    let cargo = ops[k].held();
    &&& m.timer_enabled == om.timer_enabled
    &&& m.timer_dots == om.timer_dots
    &&& m.autostop_active == om.autostop_active
    &&& m.cooldown_ticks_left == om.cooldown_ticks_left
    &&& m.is_alt_display == om.is_alt_display
    &&& ops[k].incoming() ==> {
        let score = om.score.wrapping_add(timer_score(om.timer_enabled, cargo));
        &&& m.score == score
        &&& timer_removed(timer_list(m.timers), timer_list(om.timers), k as u8)
        &&& cleared_at(ps, ops, k)
        &&& st == ost
        &&& !bonus_car_score(score) ==> t.cargo_replaced_from(ot, cargo, Cargo::Empty, true)
        &&& bonus_car_score(score) ==> exists|t1: Train| #[trigger] t1.cargo_replaced_from(ot, cargo, Cargo::Empty, true) && t.car_added_from(t1, Cargo::Empty)
    }
    &&& !ops[k].incoming() ==> {
        &&& m.score == om.score
        &&& t.cargo_replaced_from(ot, Cargo::Empty, cargo, true)
        &&& exists|ps1: Seq<Platform>, ts1: Seq<CargoTimer>| {
            &&& #[trigger] cleared_at(ps1, ops, k)
            &&& #[trigger] timer_removed(ts1, timer_list(om.timers), k as u8)
            &&& dropoff_placed(ps, timer_list(m.timers), st, ps1, ts1, ost, k, t, cargo, om.timer_enabled)
        }
    }
}

/// The outcome of `try_transfer_one` (`r`) from mode `om`, train `ot`,
/// platforms `ops` and generator state `ost`: a swap at the first platform
/// where one can be made, or nothing.
pub open spec fn transferred(
    m: DeliveryMode,
    t: Train,
    ps: Seq<Platform>,
    st: RngState,
    om: DeliveryMode,
    ot: Train,
    ops: Seq<Platform>,
    ost: RngState,
    r: bool,
) -> bool {
    let k = first_transfer(ops, ot, 0);
    &&& r == (k < ops.len())
    &&& !r ==> {
        &&& m == om
        &&& t.cars_seq() == ot.cars_seq()
        &&& t.spare_seq() == ot.spare_seq()
        &&& t.same_motion(ot)
        &&& ps == ops
        &&& st == ost
    }
    &&& r ==> transfer_effect(m, t, ps, st, om, ot, ops, ost, k)
}

/// The swap depends on the train only through what its accessors show.
proof fn lemma_transfer_effect_same_train(
    m: DeliveryMode,
    t: Train,
    ps: Seq<Platform>,
    st: RngState,
    om: DeliveryMode,
    ot1: Train,
    ot2: Train,
    ops: Seq<Platform>,
    ost: RngState,
    k: int,
)
    requires
        transfer_effect(m, t, ps, st, om, ot1, ops, ost, k),
        ot1.cars_seq() == ot2.cars_seq(),
        ot1.spare_seq() == ot2.spare_seq(),
        ot1.same_motion(ot2),
    ensures
        transfer_effect(m, t, ps, st, om, ot2, ops, ost, k),
{
    let cargo = ops[k].held();
    if ops[k].incoming() {
        let score = om.score.wrapping_add(timer_score(om.timer_enabled, cargo));
        if bonus_car_score(score) {
            let t1 = choose|t1: Train| #[trigger] t1.cargo_replaced_from(ot1, cargo, Cargo::Empty, true) && t.car_added_from(t1, Cargo::Empty);
            assert(t1.cargo_replaced_from(ot2, cargo, Cargo::Empty, true));
        }
    }
}

/// `(m, s)` is `(om, os)` after `tick_timers`.
pub open spec fn ticked_rel(m: DeliveryMode, s: GameState, om: DeliveryMode, os: GameState) -> bool {
    let ts = timer_list(om.timers);
    let e = first_expired(ts, om.timer_enabled, 0);
    let p = if e < ts.len() { e + 1 } else { ts.len() as int };
    &&& timer_list(m.timers) == timers_ticked(ts, p)
    &&& phases_ticked(s.platforms@, os.platforms@, ts, p)
    &&& m.score == om.score
    &&& m.timer_enabled == om.timer_enabled
    &&& m.autostop_active == om.autostop_active
    &&& train_list(s.trains) == train_list(os.trains)
    &&& s.switches@ == os.switches@
    &&& s.rand == os.rand
    &&& s.settings == os.settings
    &&& s.redraw == os.redraw
    &&& s.is_paused == os.is_paused
    &&& s.target_mode_index == os.target_mode_index
    &&& e < ts.len() ==> {
        &&& s.is_over
        &&& s.display == alt_display(os.is_paused, om.timer_dots)
        &&& m.is_alt_display
        &&& m.cooldown_ticks_left == COOLDOWN_TICKS
        &&& m.timer_dots == om.timer_dots
    }
    &&& e >= ts.len() ==> {
        let dots = dots_for(min_ticked(ts, ts.len() as int));
        &&& s.is_over == os.is_over
        &&& m.timer_dots == dots
        &&& s.display == if dots != om.timer_dots { score_digits(om.score, dots) } else { os.display }
        &&& m.is_alt_display == om.is_alt_display
        &&& m.cooldown_ticks_left == om.cooldown_ticks_left
    }
}

/// The first expiring timer is `j` when none expires before it.
pub proof fn lemma_first_expired_at(ts: Seq<CargoTimer>, en: bool, j: int)
    requires
        0 <= j < ts.len(),
        expires(ts[j], en),
        forall|i: int| 0 <= i < j ==> !expires(#[trigger] ts[i], en),
    ensures
        first_expired(ts, en, 0) == j,
{
    lemma_first_expired_skip(ts, en, 0, j);
}

/// No timer expires.
pub proof fn lemma_first_expired_none(ts: Seq<CargoTimer>, en: bool)
    requires
        forall|i: int| 0 <= i < ts.len() ==> !expires(#[trigger] ts[i], en),
    ensures
        first_expired(ts, en, 0) == ts.len(),
{
    lemma_first_expired_skip(ts, en, 0, ts.len() as int);
}

proof fn lemma_first_expired_skip(ts: Seq<CargoTimer>, en: bool, i: int, k: int)
    requires
        0 <= i <= k <= ts.len(),
        forall|j: int| 0 <= j < k ==> !expires(#[trigger] ts[j], en),
    ensures
        first_expired(ts, en, i) == first_expired(ts, en, k),
    decreases k - i,
{
    if i < k {
        lemma_first_expired_skip(ts, en, i + 1, k);
    }
}

/// `(m, s)` is `(om, os)` after `spawn_timers`.
pub open spec fn spawned_rel(m: DeliveryMode, s: GameState, om: DeliveryMode, os: GameState) -> bool {
    let go = timer_list(om.timers).len() < timer_count(om.score) && timer_list(om.timers).len() < CARGO_TIMERS_MAX_COUNT;
    let (spawned, ts, st) = timed_spawns(os.platforms@, timer_list(om.timers), 0, os.rand.state, om.score, om.timer_enabled);
    &&& m.score == om.score
    &&& m.timer_enabled == om.timer_enabled
    &&& m.timer_dots == om.timer_dots
    &&& m.autostop_active == om.autostop_active
    &&& m.cooldown_ticks_left == om.cooldown_ticks_left
    &&& m.is_alt_display == om.is_alt_display
    &&& train_list(s.trains) == train_list(os.trains)
    &&& s.switches@ == os.switches@
    &&& s.display == os.display
    &&& s.is_over == os.is_over
    &&& s.is_paused == os.is_paused
    &&& s.redraw == os.redraw
    &&& s.settings == os.settings
    &&& s.target_mode_index == os.target_mode_index
    &&& !go ==> timer_list(m.timers) == timer_list(om.timers) && s.platforms@ == os.platforms@ && s.rand == os.rand
    &&& go ==> {
        &&& timer_list(m.timers) == ts
        &&& s.rand.state == st
        &&& s.platforms@.len() == NUM_PLATFORMS
        &&& forall|k: int| 0 <= k < NUM_PLATFORMS ==> offered_into(#[trigger] s.platforms@[k], os.platforms@[k], spawned[k])
    }
}

/// One turn of `timed_spawns`.
proof fn lemma_timed_spawns_unfold(ps: Seq<Platform>, ts: Seq<CargoTimer>, k: int, s: RngState, score: u16, enabled: bool)
    requires
        0 <= k < ps.len(),
    ensures
        ({
            let (o, ts2, s2) = timed_step(ps[k], ts, k, s, score, enabled);
            let all = timed_spawns(ps, ts, k, s, score, enabled);
            if o is Some && ts2.len() > timer_count(score) {
                all == (seq![o] + Seq::new((ps.len() - k - 1) as nat, |i: int| None), ts2, s2)
            } else {
                let rest = timed_spawns(ps, ts2, k + 1, s2, score, enabled);
                all == (seq![o] + rest.0, rest.1, rest.2)
            }
        }),
{
    reveal(timed_spawns);
}

proof fn lemma_timed_spawns_len(ps: Seq<Platform>, ts: Seq<CargoTimer>, k: int, s: RngState, score: u16, enabled: bool)
    requires
        0 <= k <= ps.len(),
    ensures
        timed_spawns(ps, ts, k, s, score, enabled).0.len() == ps.len() - k,
    decreases ps.len() - k,
{
    reveal(timed_spawns);
    if k < ps.len() {
        let (o, ts2, s2) = timed_step(ps[k], ts, k, s, score, enabled);
        lemma_timed_spawns_len(ps, ts2, k + 1, s2, score, enabled);
    }
}

/// `(m, s)` is `(om, os)` after `autostop`, which returned `stopped`.
pub open spec fn autostop_rel(m: DeliveryMode, s: GameState, om: DeliveryMode, os: GameState, stopped: bool) -> bool {
    let t = train_list(os.trains)[0];
    let level = os.settings.autostop();
    let brake = level > 0 && om.autostop_active == 0 && level >= 2 && t.spd() == 10
        && approaching(os.platforms@, os.switches@, t.front_loc(), t.dir(), TRAIN_LOOKAHEAD as nat);
    let stop = !brake && level > 0 && t.spd() == 5 && om.autostop_active <= 0 && cargo_platform_at(os.platforms@, t.front_loc());
    &&& stopped == stop
    &&& timer_list(m.timers) == timer_list(om.timers)
    &&& m.score == om.score
    &&& m.timer_enabled == om.timer_enabled
    &&& m.timer_dots == om.timer_dots
    &&& m.is_alt_display == om.is_alt_display
    &&& s.platforms@ == os.platforms@
    &&& s.switches@ == os.switches@
    &&& s.rand == os.rand
    &&& s.display == os.display
    &&& s.is_over == os.is_over
    &&& s.is_paused == os.is_paused
    &&& s.redraw == os.redraw
    &&& s.settings == os.settings
    &&& s.target_mode_index == os.target_mode_index
    &&& brake ==> trains_speed_set(train_list(s.trains), train_list(os.trains), 0, 5) && m.autostop_active == -2 && m.cooldown_ticks_left == om.cooldown_ticks_left
    &&& stop ==> {
        &&& trains_speed_set(train_list(s.trains), train_list(os.trains), 0, 0)
        &&& m.autostop_active == if om.autostop_active == 0 { -1i8 } else { om.autostop_active }
        &&& m.cooldown_ticks_left == COOLDOWN_TICKS
    }
    &&& (!brake && !stop) ==> train_list(s.trains) == train_list(os.trains) && m.autostop_active == om.autostop_active && m.cooldown_ticks_left == om.cooldown_ticks_left
}

/// `(m, s)` is `(om, os)` after `drive`.
pub open spec fn drive_rel(m: DeliveryMode, s: GameState, om: DeliveryMode, os: GameState) -> bool {
    let t = train_list(os.trains)[0];
    let speed = t.spd();
    let a = om.autostop_active;
    &&& m.timer_enabled == om.timer_enabled
    &&& m.timer_dots == om.timer_dots
    &&& m.is_alt_display == om.is_alt_display
    &&& s.switches@ == os.switches@
    &&& s.is_over == os.is_over
    &&& s.is_paused == os.is_paused
    &&& s.redraw == os.redraw
    &&& s.settings == os.settings
    &&& s.target_mode_index == os.target_mode_index
    &&& train_list(s.trains).len() == train_list(os.trains).len()
    &&& forall|j: int| 1 <= j < train_list(os.trains).len() ==> #[trigger] train_list(s.trains)[j] == train_list(os.trains)[j]
    &&& (speed == 0 && a <= 0) ==> exists|r: bool| {
        &&& #[trigger] transferred(
            DeliveryMode { autostop_active: a, cooldown_ticks_left: om.cooldown_ticks_left, ..m },
            train_list(s.trains)[0],
            s.platforms@,
            s.rand.state,
            om,
            t,
            os.platforms@,
            os.rand.state,
            r,
        )
        &&& r ==> m.cooldown_ticks_left == COOLDOWN_TICKS && m.autostop_active == a && s.display == score_digits(m.score, m.timer_dots)
        &&& (!r && a < 0) ==> m.cooldown_ticks_left == COOLDOWN_TICKS && m.autostop_active == -a && s.display == os.display
        &&& (!r && a == 0) ==> m.cooldown_ticks_left == om.cooldown_ticks_left && m.autostop_active == a && s.display == os.display
    }
    &&& !(speed == 0 && a <= 0) ==> {
        &&& timer_list(m.timers) == timer_list(om.timers)
        &&& m.score == om.score
        &&& s.platforms@ == os.platforms@
        &&& s.rand == os.rand
        &&& s.display == os.display
    }
    &&& (speed == 0 && a > 0) ==> {
        let n = train_list(s.trains)[0];
        &&& n.spd() == 5
        &&& n.counter() == crate::train::MAX_SPEED
        &&& n.cars_seq() == t.cars_seq()
        &&& n.spare_seq() == t.spare_seq()
        &&& n.dir() == t.dir()
        &&& n.cap() == t.cap()
        &&& n.last() == t.last()
        &&& n.phase_value() == t.phase_value()
        &&& m.cooldown_ticks_left == COOLDOWN_TICKS
        &&& m.autostop_active == a
    }
    &&& (speed != 0 && a > 0) ==> {
        let target = 5 * a;
        &&& speed < target ==> {
            &&& trains_speed_set(train_list(s.trains), train_list(os.trains), 0, (speed + 5) as u8)
            &&& m.autostop_active == a
            &&& m.cooldown_ticks_left == if speed + 5 < target { 18 } else { om.cooldown_ticks_left }
        }
        &&& speed >= target ==> train_list(s.trains) == train_list(os.trains) && m.autostop_active == 0 && m.cooldown_ticks_left == om.cooldown_ticks_left
    }
    &&& (speed != 0 && a <= 0) ==> train_list(s.trains) == train_list(os.trains) && m.autostop_active == a && m.cooldown_ticks_left == om.cooldown_ticks_left
}

/// The first transfer is at `k` when none is possible before it.
proof fn lemma_first_transfer_at(ps: Seq<Platform>, t: Train, k: int)
    requires
        0 <= k < ps.len(),
        can_transfer(ps[k], t),
        forall|j: int| 0 <= j < k ==> !can_transfer(#[trigger] ps[j], t),
    ensures
        first_transfer(ps, t, 0) == k,
{
    lemma_first_transfer_skip(ps, t, 0, k);
}

/// No transfer is possible anywhere.
proof fn lemma_first_transfer_none(ps: Seq<Platform>, t: Train)
    requires
        forall|j: int| 0 <= j < ps.len() ==> !can_transfer(#[trigger] ps[j], t),
    ensures
        first_transfer(ps, t, 0) == ps.len(),
{
    lemma_first_transfer_skip(ps, t, 0, ps.len() as int);
}

proof fn lemma_first_transfer_skip(ps: Seq<Platform>, t: Train, i: int, k: int)
    requires
        0 <= i <= k <= ps.len(),
        forall|j: int| 0 <= j < k ==> !can_transfer(#[trigger] ps[j], t),
    ensures
        first_transfer(ps, t, i) == first_transfer(ps, t, k),
    decreases k - i,
{
    if i < k {
        lemma_first_transfer_skip(ps, t, i + 1, k);
    }
}

/// `(m, s)` is `(om, os)` after the restart of a delivery game.
pub open spec fn delivery_restarted(m: DeliveryMode, s: GameState, om: DeliveryMode, os: GameState) -> bool {
    &&& !m.is_alt_display
    &&& m.autostop_active == 0
    &&& m.score == 0
    &&& m.timer_dots == 3
    &&& timer_list(m.timers).len() == 0
    &&& m.timer_enabled == om.timer_enabled
    &&& m.cooldown_ticks_left == om.cooldown_ticks_left
    &&& !s.is_over
    &&& !s.is_paused
    &&& s.redraw
    &&& s.display == score_digits(0, 3)
    &&& s.settings == os.settings
    &&& s.switches@ == os.switches@
    &&& s.target_mode_index == os.target_mode_index
    &&& trains_after_init(train_list(s.trains), train_list(os.trains), os.platforms@, Cargo::Empty, 3, 5)
    &&& platforms_after_clear(s.platforms@, os.platforms@)
}

/// `(m, s)` is `(om, os)` after one tick of a delivery game: while the
/// mode waits only the wait shortens; over or paused, the display switches
/// between the score and the other screen; otherwise the timers tick, cargo
/// spawns, the automatic stop acts and the train is driven.
pub open spec fn delivery_ticked(m: DeliveryMode, s: GameState, om: DeliveryMode, os: GameState) -> bool {
    &&& om.cooldown_ticks_left > 0 ==> {
        &&& m == DeliveryMode { cooldown_ticks_left: (om.cooldown_ticks_left - 1) as u8, ..om }
        &&& s == os
    }
    &&& (om.cooldown_ticks_left == 0 && (os.is_over || os.is_paused)) ==> {
        let alt = !om.is_alt_display;
        &&& m == DeliveryMode { is_alt_display: alt, cooldown_ticks_left: COOLDOWN_TICKS, ..om }
        &&& s == GameState { display: if alt { alt_display(os.is_paused, om.timer_dots) } else { score_digits(om.score, om.timer_dots) }, ..os }
    }
    &&& (om.cooldown_ticks_left == 0 && !(os.is_over || os.is_paused)) ==> exists|m1: DeliveryMode, s1: GameState| {
        &&& #[trigger] ticked_rel(m1, s1, om, os)
        &&& first_expired(timer_list(om.timers), om.timer_enabled, 0) < timer_list(om.timers).len() ==> m == m1 && s == s1
        &&& first_expired(timer_list(om.timers), om.timer_enabled, 0) >= timer_list(om.timers).len() ==> exists|m2: DeliveryMode, s2: GameState, m3: DeliveryMode, s3: GameState, stopped: bool| {
            &&& #[trigger] spawned_rel(m2, s2, m1, s1)
            &&& #[trigger] autostop_rel(m3, s3, m2, s2, stopped)
            &&& stopped ==> m == m3 && s == s3
            &&& !stopped ==> drive_rel(m, s, m3, s3)
        }
    }
}

/// `(m, s)` is `(om, os)` restarted if the game was over, else unchanged.
pub open spec fn restarted_if_over(m: DeliveryMode, s: GameState, om: DeliveryMode, os: GameState) -> bool {
    &&& os.is_over ==> delivery_restarted(m, s, om, os)
    &&& !os.is_over ==> m == om && s == os
}

/// `(m, s)` is `(om, os)` after `event` in a delivery game: an event after
/// the game is over restarts it; a direction button cancels the automatic
/// stop and makes the mode wait; left and right slow down and speed up the
/// train (by 5, at most 15), up and down pause and resume.
pub open spec fn delivery_input(m: DeliveryMode, s: GameState, om: DeliveryMode, os: GameState, event: InputEvent) -> bool {
    exists|m0: DeliveryMode, s0: GameState| {
        &&& #[trigger] restarted_if_over(m0, s0, om, os)
        &&& match event {
            InputEvent::DirectionButtonPressed(d) => {
                &&& m.autostop_active == 0
                &&& m.cooldown_ticks_left == COOLDOWN_TICKS
                &&& m.score == m0.score
                &&& timer_list(m.timers) == timer_list(m0.timers)
                &&& m.timer_dots == m0.timer_dots
                &&& m.timer_enabled == m0.timer_enabled
                &&& s.platforms@ == s0.platforms@
                &&& s.switches@ == s0.switches@
                &&& s.rand == s0.rand
                &&& s.is_over == s0.is_over
                &&& s.redraw == s0.redraw
                &&& s.settings == s0.settings
                &&& s.target_mode_index == s0.target_mode_index
                &&& match d {
                    InputDirection::Left => {
                        let speed = train_list(s0.trains)[0].spd();
                        &&& trains_speed_set(train_list(s.trains), train_list(s0.trains), 0, if speed >= 5 { (speed - 5) as u8 } else { 0 })
                        &&& s.is_paused == s0.is_paused && s.display == s0.display && m.is_alt_display == m0.is_alt_display
                    },
                    InputDirection::Right => {
                        let speed = train_list(s0.trains)[0].spd();
                        &&& trains_speed_set(train_list(s.trains), train_list(s0.trains), 0, if speed + 5 >= 15 { 15 } else { (speed + 5) as u8 })
                        &&& s.is_paused == s0.is_paused && s.display == s0.display && m.is_alt_display == m0.is_alt_display
                    },
                    _ => {
                        let paused = !s0.is_paused;
                        &&& train_list(s.trains) == train_list(s0.trains)
                        &&& s.is_paused == paused
                        &&& m.is_alt_display == paused
                        &&& s.display == if paused { alt_display(paused, m0.timer_dots) } else { score_digits(m0.score, m0.timer_dots) }
                    },
                }
            },
            _ => m == m0 && s == s0,
        }
    }
}

impl GameModeHandler for DeliveryMode {
    open spec fn mode_wf(&self) -> bool {
        true
    }

    open spec fn ready(&self, trains: nat) -> bool {
        self.wf() && trains >= 1
    }

    /// One train of three empty cars (at most five), all platforms empty,
    /// no timers, score zero.
    fn on_restart(&mut self, state: &mut GameState)
        ensures
            delivery_restarted(*final(self), *final(state), *old(self), *old(state)),
    {
        self.is_alt_display = false;
        self.autostop_active = 0;
        self.score = 0;
        self.timer_dots = 3;
        timers_clear(&mut self.timers);
        state.is_over = false;
        state.is_paused = false;
        state.init_trains(Cargo::Empty, 3, 5);
        state.clear_platforms();
        state.display = self.score_display();
    }

    fn on_game_tick(&mut self, state: &mut GameState)
        ensures
            delivery_ticked(*final(self), *final(state), *old(self), *old(state)),
    {
        if self.cooldown_ticks_left > 0 {
            self.cooldown_ticks_left = self.cooldown_ticks_left - 1;
            return;
        }
        if state.is_over || state.is_paused {
            let alt = !self.is_alt_display;
            self.set_display(state, alt);
            return;
        }
        if self.tick_timers(state) {
            proof {
                assert(ticked_rel(*self, *state, *old(self), *old(state)));
            }
            return;
        }
        let ghost m1 = *self;
        let ghost s1 = *state;
        self.spawn_timers(state);
        let ghost m2 = *self;
        let ghost s2 = *state;
        if self.autostop(state) {
            proof {
                assert(ticked_rel(m1, s1, *old(self), *old(state)));
                assert(spawned_rel(m2, s2, m1, s1));
                assert(autostop_rel(*self, *state, m2, s2, true));
            }
            return;
        }
        let ghost m3 = *self;
        let ghost s3 = *state;
        self.drive(state);
        proof {
            assert(ticked_rel(m1, s1, *old(self), *old(state)));
            assert(spawned_rel(m2, s2, m1, s1));
            assert(autostop_rel(m3, s3, m2, s2, false));
        }
    }

    fn on_input_event(&mut self, event: InputEvent, state: &mut GameState)
        ensures
            delivery_input(*final(self), *final(state), *old(self), *old(state), event),
    {
        if state.is_over {
            self.on_restart(state);
        }
        let ghost m0 = *self;
        let ghost s0 = *state;
        match event {
            InputEvent::DirectionButtonPressed(direction) => {
                self.autostop_active = 0;
                self.cooldown_ticks_left = COOLDOWN_TICKS;
                match direction {
                    InputDirection::Left => {
                        let speed = trains_slice(&state.trains)[TRAIN_INDEX].speed();
                        state.set_train_speed(TRAIN_INDEX, speed.saturating_sub(TRAIN_SPEED_INC));
                    },
                    InputDirection::Right => {
                        let speed = trains_slice(&state.trains)[TRAIN_INDEX].speed();
                        let faster = speed.saturating_add(TRAIN_SPEED_INC);
                        let new_speed = if faster < TRAIN_MAX_SPEED { faster } else { TRAIN_MAX_SPEED };
                        state.set_train_speed(TRAIN_INDEX, new_speed);
                    },
                    _ => {
                        state.is_paused = !state.is_paused;
                        let paused = state.is_paused;
                        self.set_display(state, paused);
                    },
                }
            },
            _ => {},
        }
        proof {
            assert(restarted_if_over(m0, s0, *old(self), *old(state)));
        }
    }

    fn on_train_advance(&mut self, train_index: usize, state: &mut GameState)
        ensures
            *final(self) == *old(self),
            *final(state) == *old(state),
    {
    }
}

/// The untimed delivery game.
pub struct FreeplayDeliveryMode(pub DeliveryMode);

/// The timed delivery game.
pub struct TimedDeliveryMode(pub DeliveryMode);

impl Default for FreeplayDeliveryMode {
    fn default() -> (r: Self)
        ensures
            r.0.wf(),
            !r.0.timer_enabled,
            r.0.score == 0,
            timer_list(r.0.timers).len() == 0,
    {
        FreeplayDeliveryMode(DeliveryMode::new(false))
    }
}

impl Default for TimedDeliveryMode {
    fn default() -> (r: Self)
        ensures
            r.0.wf(),
            r.0.timer_enabled,
            r.0.score == 0,
            timer_list(r.0.timers).len() == 0,
    {
        TimedDeliveryMode(DeliveryMode::new(true))
    }
}

impl GameModeHandler for FreeplayDeliveryMode {
    open spec fn mode_wf(&self) -> bool {
        true
    }

    open spec fn ready(&self, trains: nat) -> bool {
        self.0.wf() && trains >= 1
    }

    fn on_restart(&mut self, state: &mut GameState)
        ensures
            delivery_restarted(final(self).0, *final(state), old(self).0, *old(state)),
    {
        self.0.on_restart(state);
    }

    fn on_game_tick(&mut self, state: &mut GameState)
        ensures
            delivery_ticked(final(self).0, *final(state), old(self).0, *old(state)),
    {
        self.0.on_game_tick(state);
    }

    fn on_input_event(&mut self, event: InputEvent, state: &mut GameState)
        ensures
            delivery_input(final(self).0, *final(state), old(self).0, *old(state), event),
    {
        self.0.on_input_event(event, state);
    }

    fn on_train_advance(&mut self, train_index: usize, state: &mut GameState)
        ensures
            final(self).0 == old(self).0,
            *final(state) == *old(state),
    {
        self.0.on_train_advance(train_index, state);
    }
}

impl GameModeHandler for TimedDeliveryMode {
    open spec fn mode_wf(&self) -> bool {
        true
    }

    open spec fn ready(&self, trains: nat) -> bool {
        self.0.wf() && trains >= 1
    }

    fn on_restart(&mut self, state: &mut GameState)
        ensures
            delivery_restarted(final(self).0, *final(state), old(self).0, *old(state)),
    {
        self.0.on_restart(state);
    }

    fn on_game_tick(&mut self, state: &mut GameState)
        ensures
            delivery_ticked(final(self).0, *final(state), old(self).0, *old(state)),
    {
        self.0.on_game_tick(state);
    }

    fn on_input_event(&mut self, event: InputEvent, state: &mut GameState)
        ensures
            delivery_input(final(self).0, *final(state), old(self).0, *old(state), event),
    {
        self.0.on_input_event(event, state);
    }

    fn on_train_advance(&mut self, train_index: usize, state: &mut GameState)
        ensures
            final(self).0 == old(self).0,
            *final(state) == *old(state),
    {
        self.0.on_train_advance(train_index, state);
    }
}

/// A cargo that blinks: once, twice or three times per cycle.
pub open spec fn blinking(p: LedPattern) -> bool {
    p == LedPattern::Blink1 || p == LedPattern::Blink2 || p == LedPattern::Blink3
}

/// What a delivered cargo earns. In the timed game every blinking cargo
/// earns one to three points, and the faster it blinks the more it earns
/// (so once, twice and three times per cycle earn one, two and three
/// points); in the free game every full car earns one point; an empty car
/// earns nothing in either.
pub proof fn lemma_timer_score_points(p: LedPattern, q: LedPattern, enabled: bool)
    ensures
        blinking(p) ==> 1 <= timer_score(true, Cargo::Full(p)) <= 3,
        timer_score(true, Cargo::Full(LedPattern::Blink1)) < timer_score(true, Cargo::Full(LedPattern::Blink2)),
        timer_score(true, Cargo::Full(LedPattern::Blink2)) < timer_score(true, Cargo::Full(LedPattern::Blink3)),
        blinking(p) && blinking(q) && p != q ==> timer_score(true, Cargo::Full(p)) != timer_score(true, Cargo::Full(q)),
        timer_score(false, Cargo::Full(p)) == 1,
        timer_score(enabled, Cargo::Empty) == 0,
{
}

/// A delivery raises the score: when the platform the train stops at asks
/// for the cargo it holds, and that cargo is full (blinking, in the timed
/// game), the score after the swap is higher, by the cargo's points.
pub proof fn lemma_delivery_raises_score(
    m: DeliveryMode,
    t: Train,
    ps: Seq<Platform>,
    st: RngState,
    om: DeliveryMode,
    ot: Train,
    ops: Seq<Platform>,
    ost: RngState,
    k: int,
)
    requires
        transfer_effect(m, t, ps, st, om, ot, ops, ost, k),
        ops[k].incoming(),
        ops[k].held() matches Cargo::Full(p) && (om.timer_enabled ==> blinking(p)),
        om.score < 65533,
    ensures
        om.score < m.score <= om.score + 3,
        m.score == om.score + timer_score(om.timer_enabled, ops[k].held()),
{
    lemma_timer_score_points(ops[k].held()->0, ops[k].held()->0, om.timer_enabled);
}

/// A delivery in the delivery games that brings the score to 3, 10, 20 or
/// 30 gives the train an empty car behind the others (if it has room); at
/// any other score the train keeps its number of cars.
pub proof fn lemma_delivery_bonus_car(
    m: DeliveryMode,
    t: Train,
    ps: Seq<Platform>,
    st: RngState,
    om: DeliveryMode,
    ot: Train,
    ops: Seq<Platform>,
    ost: RngState,
    k: int,
)
    requires
        ot.wf(),
        transfer_effect(m, t, ps, st, om, ot, ops, ost, k),
        ops[k].incoming(),
    ensures
        (m.score == 3 || m.score == 10 || m.score == 20 || m.score == 30) && ot.cars_seq().len() < ot.cap() ==> {
            &&& t.cars_seq().len() == ot.cars_seq().len() + 1
            &&& t.cars_seq().last().cargo == Cargo::Empty
        },
        !(m.score == 3 || m.score == 10 || m.score == 20 || m.score == 30) ==> t.cars_seq().len() == ot.cars_seq().len(),
{
    let cargo = ops[k].held();
    if bonus_car_score(m.score) {
        let t1 = choose|t1: Train| #[trigger] t1.cargo_replaced_from(ot, cargo, Cargo::Empty, true) && t.car_added_from(t1, Cargo::Empty);
        assert(t1.cars_seq().len() == ot.cars_seq().len());
    }
}

/// Timers: in the timed game a cargo blinking twice per cycle gets half the
/// full time and one blinking three times a quarter of it, and every other
/// cargo the full time; in the free game every cargo gets the full time.
/// More timers run as the score grows, one more for every seven points (as
/// long as the count fits in a byte), and cargo spawns more often as the
/// score grows.
pub proof fn lemma_timer_ticks_and_counts(p: LedPattern, sc1: u16, sc2: u16)
    ensures
        timer_ticks(true, Cargo::Full(LedPattern::Blink2)) * 2 == CARGO_TIMER_TICKS,
        timer_ticks(true, Cargo::Full(LedPattern::Blink3)) * 4 == CARGO_TIMER_TICKS,
        !(p == LedPattern::Blink2 || p == LedPattern::Blink3) ==> timer_ticks(true, Cargo::Full(p)) == CARGO_TIMER_TICKS,
        timer_ticks(false, Cargo::Full(p)) == CARGO_TIMER_TICKS,
        timer_count(0) == 3,
        sc1 <= sc2 < 1764 ==> timer_count(sc1) <= timer_count(sc2),
        sc1 + 7 < 1764 ==> timer_count((sc1 + 7) as u16) == timer_count(sc1) + 1,
        sc1 <= sc2 ==> spawn_chance(sc1) <= spawn_chance(sc2),
{
}

} // verus!
