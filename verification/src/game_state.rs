//! The state shared by all game modes: trains, platforms, switches, the
//! digit display, the settings and the random number generator.
use vstd::prelude::*;

use crate::bounded::{train_list, trains_insert, trains_len, trains_new, trains_pop, trains_push, trains_remove, trains_slice};
use crate::cargo::{Cargo, LedPattern};
use crate::common::LedUpdate;
use crate::game_settings::GameSettings;
use crate::location::{Direction, Location, NUM_PLATFORMS, NUM_SWITCHES};
use crate::platform::Platform;
use crate::random::{Rand, RngState, range_draw, u16_draw};
use crate::switch::Switch;
use crate::train::{Car, Train, DEFAULT_SPEED, MAX_SPEED};

verus! {

/// Cars available to all trains together.
pub const MAX_CARS: usize = 128;

pub const MAX_TRAINS: usize = 8;

/// Car storage set aside per train.
pub const TRAIN_SIZE: usize = 16;

/// The segments lit on the pause screen (two vertical bars).
pub const PAUSE_BYTES: [u8; 3] = [0u8, 0x36, 0u8];

/// What the three seven-segment digits show.
#[derive(Clone, Copy, Debug)]
pub enum DisplayState {
    Blank,
    Score(u16),
    Segments([u8; 3]),
    Text([u8; 3]),
}

fn same_digits(a: &[u8; 3], b: &[u8; 3]) -> (r: bool)
    ensures
        r == (*a == *b),
{
    let r = a[0] == b[0] && a[1] == b[1] && a[2] == b[2];
    proof {
        if r {
            assert(a@ =~= b@);
            assert(*a =~= *b);
        }
    }
    r
}

impl PartialEq for DisplayState {
    fn eq(&self, other: &Self) -> (r: bool) {
        match (self, other) {
            (DisplayState::Blank, DisplayState::Blank) => true,
            (DisplayState::Score(a), DisplayState::Score(b)) => *a == *b,
            (DisplayState::Segments(a), DisplayState::Segments(b)) => same_digits(a, b),
            (DisplayState::Text(a), DisplayState::Text(b)) => same_digits(a, b),
            _ => false,
        }
    }
}

impl vstd::std_specs::cmp::PartialEqSpecImpl for DisplayState {
    open spec fn obeys_eq_spec() -> bool {
        true
    }

    open spec fn eq_spec(&self, other: &DisplayState) -> bool {
        *self == *other
    }
}

impl DisplayState {
    pub fn ded() -> (r: DisplayState)
        ensures
            r == DisplayState::Text([100u8, 101, 100]),
    {
        DisplayState::Text([100u8, 101, 100])
    }

    pub fn gg() -> (r: DisplayState)
        ensures
            r == DisplayState::Text([32u8, 103, 103]),
    {
        DisplayState::Text([32u8, 103, 103])
    }

    pub fn ovr() -> (r: DisplayState)
        ensures
            r == DisplayState::Text([111u8, 118, 114]),
    {
        DisplayState::Text([111u8, 118, 114])
    }

    pub fn pause() -> (r: DisplayState)
        ensures
            r == DisplayState::Segments(PAUSE_BYTES),
    {
        DisplayState::Segments(PAUSE_BYTES)
    }
}

pub struct GameState {
    /// The mode the game should switch to (set by the menu).
    pub target_mode_index: usize,
    /// Entity updates stop: the game is over.
    pub is_over: bool,
    /// Entity updates stop: the game is paused.
    pub is_paused: bool,
    /// All board LEDs must be redrawn.
    pub redraw: bool,
    pub display: DisplayState,
    pub settings: GameSettings,
    pub trains: heapless::Vec<Train, MAX_TRAINS>,
    pub platforms: Vec<Platform>,
    pub switches: Vec<Switch>,
    pub rand: Rand,
}

/// The storage a train with index `i` gets: the cars from `i * TRAIN_SIZE` on.
pub open spec fn storage_size(i: int) -> int {
    MAX_CARS - i * TRAIN_SIZE
}

impl GameState {
    pub open spec fn trains_wf(trains: Seq<Train>) -> bool {
        &&& trains.len() <= MAX_TRAINS
        &&& forall|i: int| 0 <= i < trains.len() ==> (#[trigger] trains[i]).wf()
        &&& forall|i: int| 0 <= i < trains.len() ==> (#[trigger] trains[i]).storage_placed()
        &&& forall|i: int| 0 <= i < trains.len() ==> (#[trigger] trains[i]).storage().len() == storage_size(i)
    }

    pub open spec fn platforms_wf(platforms: Seq<Platform>) -> bool {
        &&& platforms.len() == NUM_PLATFORMS
        &&& forall|i: int| 0 <= i < platforms.len() ==> (#[trigger] platforms[i]).wf()
    }

    pub open spec fn switches_wf(switches: Seq<Switch>) -> bool {
        &&& switches.len() == NUM_SWITCHES
        &&& forall|i: int| 0 <= i < switches.len() ==> (#[trigger] switches[i]).wf()
    }

    pub open spec fn wf(self) -> bool {
        &&& self.rand.wf()
        &&& Self::trains_wf(train_list(self.trains))
        &&& Self::platforms_wf(self.platforms@)
        &&& Self::switches_wf(self.switches@)
    }

    /// Nothing but the random generator, the trains and the redraw flag changed.
    pub open spec fn same_but_trains(self, other: Self) -> bool {
        &&& self.target_mode_index == other.target_mode_index
        &&& self.is_over == other.is_over
        &&& self.is_paused == other.is_paused
        &&& self.display == other.display
        &&& self.settings == other.settings
        &&& self.platforms@ == other.platforms@
        &&& self.switches@ == other.switches@
    }

    /// A fresh state: no trains, all platforms empty, all switches straight.
    pub fn new(settings: GameSettings, rand: Rand) -> (r: Self)
        requires
            rand.wf(),
        ensures
            r.wf(),
            train_list(r.trains).len() == 0,
            r.settings == settings,
            r.display == DisplayState::Blank,
            r.target_mode_index == 0,
            !r.is_over,
            !r.is_paused,
            !r.redraw,
            forall|k: int| 0 <= k < NUM_PLATFORMS ==> (#[trigger] r.platforms@[k]).empty(),
    {
        let mut rand = rand;
        let platforms = Platform::take();
        let switches = Switch::take(&mut rand);
        GameState {
            target_mode_index: 0,
            is_over: false,
            is_paused: false,
            redraw: false,
            display: DisplayState::Blank,
            settings,
            trains: trains_new(),
            platforms,
            switches,
            rand,
        }
    }

    /// A uniformly chosen platform.
    pub fn rand_platform(&mut self) -> (r: Platform)
        requires
            old(self).wf(),
        ensures
            final(self).wf(),
            train_list(final(self).trains) == train_list(old(self).trains),
            final(self).platforms@ == old(self).platforms@,
            final(self).switches@ == old(self).switches@,
            final(self).settings == old(self).settings,
            final(self).display == old(self).display,
            final(self).is_over == old(self).is_over,
            final(self).is_paused == old(self).is_paused,
            final(self).redraw == old(self).redraw,
            final(self).target_mode_index == old(self).target_mode_index,
            exists|k: int| 0 <= k < NUM_PLATFORMS && r == #[trigger] old(self).platforms@[k],
            r.wf(),
    {
        let index = self.rand.from_range(0, (self.platforms.len() - 1) as u8) as usize;
        self.platforms[index]
    }

    /// Adds a train of `num_cars` cars (at most `max_cars`) all carrying
    /// `cargo`, its engine at the track of a random platform, unless there
    /// are already `MAX_TRAINS` trains.
    pub fn add_train(&mut self, cargo: Cargo, num_cars: u8, max_cars: u8, speed: Option<u8>)
        requires
            old(self).wf(),
            train_list(old(self).trains).len() < MAX_TRAINS ==> 1 <= max_cars <= storage_size(
                train_list(old(self).trains).len() as int,
            ),
            speed matches Some(s) ==> s <= MAX_SPEED,
        ensures
            final(self).wf(),
            final(self).same_but_trains(*old(self)),
            train_list(old(self).trains).len() == MAX_TRAINS ==> train_list(final(self).trains) == train_list(old(self).trains)
                && final(self).redraw == old(self).redraw,
            train_list(old(self).trains).len() < MAX_TRAINS ==> {
                let n = train_list(old(self).trains).len();
                &&& train_list(final(self).trains).len() == n + 1
                &&& train_list(final(self).trains).take(n as int) == train_list(old(self).trains)
                &&& final(self).redraw
                &&& new_train(train_list(final(self).trains)[n as int], old(self).platforms@, cargo, num_cars, max_cars, speed)
            },
    {
        if trains_len(&self.trains) >= MAX_TRAINS {
            return;
        }
        let n = trains_len(&self.trains);
        let loc = self.rand_platform().track_location();
        let size = MAX_CARS - n * TRAIN_SIZE;
        let train = build_train(size, loc, cargo, num_cars, max_cars, speed, &mut self.rand);
        let _ = trains_push(&mut self.trains, train);
        self.redraw = true;
        proof {
            assert(train_list(self.trains)[n as int] == train);
            assert(train_list(self.trains).take(n as int) =~= train_list(old(self).trains));
            assert forall|k: int| 0 <= k < train_list(self.trains).len() implies (#[trigger] train_list(self.trains)[k]).wf()
                && train_list(self.trains)[k].storage().len() == storage_size(k) by {
                if k < n {
                    assert(train_list(self.trains)[k] == train_list(old(self).trains)[k]);
                }
            }
        }
    }

    /// Sets the speed of train `train_index` as `Train::set_speed` does.
    pub fn set_train_speed(&mut self, train_index: usize, speed: u8)
        requires
            old(self).wf(),
            train_index < train_list(old(self).trains).len(),
        ensures
            final(self).wf(),
            final(self).same_but_trains(*old(self)),
            final(self).rand == old(self).rand,
            final(self).redraw == old(self).redraw,
            trains_speed_set(train_list(final(self).trains), train_list(old(self).trains), train_index as int, speed),
    {
        let mut train = trains_remove(&mut self.trains, train_index);
        train.set_speed(speed);
        let _ = trains_insert(&mut self.trains, train_index, train);
        proof {
            assert(train_list(self.trains) =~= train_list(old(self).trains).update(train_index as int, train));
            lemma_trains_update(train_list(old(self).trains), train_index as int, train);
        }
    }

    /// Makes train `train_index` move on its next tick.
    pub fn force_train_advance(&mut self, train_index: usize)
        requires
            old(self).wf(),
            train_index < train_list(old(self).trains).len(),
        ensures
            final(self).wf(),
            final(self).same_but_trains(*old(self)),
            final(self).rand == old(self).rand,
            final(self).redraw == old(self).redraw,
            train_list(final(self).trains).len() == train_list(old(self).trains).len(),
            forall|j: int| 0 <= j < train_list(old(self).trains).len() && j != train_index ==> #[trigger] train_list(final(self).trains)[j] == train_list(old(self).trains)[j],
            ({
                let t = train_list(final(self).trains)[train_index as int];
                let o = train_list(old(self).trains)[train_index as int];
                &&& t.counter() == MAX_SPEED
                &&& t.spd() == o.spd()
                &&& t.cars_seq() == o.cars_seq()
                &&& t.spare_seq() == o.spare_seq()
                &&& t.dir() == o.dir()
                &&& t.cap() == o.cap()
                &&& t.last() == o.last()
                &&& t.phase_value() == o.phase_value()
            }),
    {
        let mut train = trains_remove(&mut self.trains, train_index);
        train.force_advance_next_tick();
        let _ = trains_insert(&mut self.trains, train_index, train);
        proof {
            assert(train_list(self.trains) =~= train_list(old(self).trains).update(train_index as int, train));
            lemma_trains_update(train_list(old(self).trains), train_index as int, train);
        }
    }

    /// Advances train `train_index` (see `Train::advance`), redrawing all its
    /// cars when the state asks for a redraw; returns whether it moved and
    /// its LED updates.
    pub fn advance_train(&mut self, train_index: usize) -> (r: (bool, Vec<LedUpdate>))
        requires
            old(self).wf(),
            train_index < train_list(old(self).trains).len(),
        ensures
            final(self).wf(),
            final(self).same_but_trains(*old(self)),
            final(self).rand == old(self).rand,
            final(self).redraw == old(self).redraw,
            train_list(final(self).trains).len() == train_list(old(self).trains).len(),
            forall|j: int| 0 <= j < train_list(old(self).trains).len() && j != train_index ==> #[trigger] train_list(final(self).trains)[j] == train_list(old(self).trains)[j],
            train_list(final(self).trains)[train_index as int].advanced_from(train_list(old(self).trains)[train_index as int], old(self).settings, old(self).switches@, old(self).redraw, (r.0, r.1@)),
    {
        let mut train = trains_remove(&mut self.trains, train_index);
        let r = train.advance(&self.settings, &self.switches, self.redraw);
        let _ = trains_insert(&mut self.trains, train_index, train);
        proof {
            assert(train_list(self.trains) =~= train_list(old(self).trains).update(train_index as int, train));
            lemma_trains_update(train_list(old(self).trains), train_index as int, train);
        }
        r
    }

    /// One tick of platform `index` (see `Platform::update`).
    pub fn update_platform(&mut self, index: usize, force: bool) -> (r: (bool, Option<LedUpdate>))
        requires
            old(self).wf(),
            index < NUM_PLATFORMS,
        ensures
            final(self).wf(),
            train_list(final(self).trains) == train_list(old(self).trains),
            final(self).switches@ == old(self).switches@,
            final(self).rand == old(self).rand,
            final(self).display == old(self).display,
            final(self).redraw == old(self).redraw,
            final(self).is_over == old(self).is_over,
            final(self).is_paused == old(self).is_paused,
            final(self).settings == old(self).settings,
            final(self).target_mode_index == old(self).target_mode_index,
            final(self).platforms@.len() == NUM_PLATFORMS,
            forall|j: int| 0 <= j < NUM_PLATFORMS && j != index ==> #[trigger] final(self).platforms@[j] == old(self).platforms@[j],
            final(self).platforms@[index as int].updated_from(old(self).platforms@[index as int], old(self).settings, force, r),
    {
        let mut platform = self.platforms[index];
        let r = platform.update(&self.settings, force);
        self.platforms.set(index, platform);
        r
    }

    /// One tick of switch `index` (see `Switch::update`).
    pub fn update_switch(&mut self, index: usize, force: bool) -> (r: (bool, Vec<LedUpdate>))
        requires
            old(self).wf(),
            index < NUM_SWITCHES,
        ensures
            final(self).wf(),
            train_list(final(self).trains) == train_list(old(self).trains),
            final(self).platforms@ == old(self).platforms@,
            final(self).rand == old(self).rand,
            final(self).display == old(self).display,
            final(self).redraw == old(self).redraw,
            final(self).is_over == old(self).is_over,
            final(self).is_paused == old(self).is_paused,
            final(self).settings == old(self).settings,
            final(self).target_mode_index == old(self).target_mode_index,
            final(self).switches@.len() == NUM_SWITCHES,
            forall|j: int| 0 <= j < NUM_SWITCHES && j != index ==> #[trigger] final(self).switches@[j] == old(self).switches@[j],
            final(self).switches@[index as int].updated_from(old(self).switches@[index as int], old(self).settings, train_list(old(self).trains), force, (r.0, r.1@)),
    {
        let mut switch = self.switches[index];
        let r = switch.update(&self.settings, trains_slice(&self.trains), force);
        self.switches.set(index, switch);
        r
    }

    /// Toggles switch `index` (see `Switch::switch`).
    pub fn toggle_switch(&mut self, index: usize)
        requires
            old(self).wf(),
            index < NUM_SWITCHES,
        ensures
            final(self).wf(),
            switch_toggled(*final(self), *old(self), index as int),
    {
        let mut switch = self.switches[index];
        switch.switch();
        self.switches.set(index, switch);
    }

    /// Adds a car carrying `cargo` to train `train_index` (see `Train::add_car`).
    pub fn add_train_car(&mut self, train_index: usize, cargo: Cargo)
        requires
            old(self).wf(),
            train_index < train_list(old(self).trains).len(),
        ensures
            final(self).wf(),
            final(self).same_but_trains(*old(self)),
            final(self).rand == old(self).rand,
            final(self).redraw == old(self).redraw,
            train_list(final(self).trains).len() == train_list(old(self).trains).len(),
            forall|j: int| 0 <= j < train_list(old(self).trains).len() && j != train_index ==> #[trigger] train_list(final(self).trains)[j] == train_list(old(self).trains)[j],
            train_list(final(self).trains)[train_index as int].car_added_from(train_list(old(self).trains)[train_index as int], cargo),
    {
        let mut train = trains_remove(&mut self.trains, train_index);
        train.add_car(cargo);
        let _ = trains_insert(&mut self.trains, train_index, train);
        proof {
            assert(train_list(self.trains) =~= train_list(old(self).trains).update(train_index as int, train));
            lemma_trains_update(train_list(old(self).trains), train_index as int, train);
        }
    }

    /// Removes the caboose of train `train_index` (see `Train::remove_car`).
    pub fn remove_train_car(&mut self, train_index: usize)
        requires
            old(self).wf(),
            train_index < train_list(old(self).trains).len(),
        ensures
            final(self).wf(),
            final(self).same_but_trains(*old(self)),
            final(self).rand == old(self).rand,
            final(self).redraw == old(self).redraw,
            train_list(final(self).trains).len() == train_list(old(self).trains).len(),
            forall|j: int| 0 <= j < train_list(old(self).trains).len() && j != train_index ==> #[trigger] train_list(final(self).trains)[j] == train_list(old(self).trains)[j],
            train_list(final(self).trains)[train_index as int].car_removed_from(train_list(old(self).trains)[train_index as int]),
    {
        let mut train = trains_remove(&mut self.trains, train_index);
        train.remove_car();
        let _ = trains_insert(&mut self.trains, train_index, train);
        proof {
            assert(train_list(self.trains) =~= train_list(old(self).trains).update(train_index as int, train));
            lemma_trains_update(train_list(old(self).trains), train_index as int, train);
        }
    }

    /// Removes the last train, unless it is the only one.
    pub fn remove_train(&mut self)
        requires
            old(self).wf(),
        ensures
            final(self).wf(),
            final(self).same_but_trains(*old(self)),
            final(self).rand == old(self).rand,
            train_list(old(self).trains).len() > 1 ==> train_list(final(self).trains) == train_list(old(self).trains).drop_last() && final(self).redraw,
            train_list(old(self).trains).len() <= 1 ==> train_list(final(self).trains) == train_list(old(self).trains) && final(self).redraw == old(self).redraw,
    {
        if trains_len(&self.trains) > 1 {
            let _ = trains_pop(&mut self.trains);
            self.redraw = true;
        }
    }

    /// Leaves a single train with `num_cars` cars (capacity `max_cars`) all
    /// carrying `cargo` at the default speed: the first train reused when
    /// there is one (for a smooth change of mode), else a new one.
    pub fn init_trains(&mut self, cargo: Cargo, num_cars: u8, max_cars: u8)
        requires
            old(self).wf(),
            1 <= num_cars <= max_cars <= MAX_CARS,
        ensures
            final(self).wf(),
            final(self).same_but_trains(*old(self)),
            final(self).redraw,
            trains_after_init(train_list(final(self).trains), train_list(old(self).trains), old(self).platforms@, cargo, num_cars, max_cars),
            train_list(old(self).trains).len() > 0 ==> final(self).rand == old(self).rand,
    {
        if trains_len(&self.trains) > 0 {
            while trains_len(&self.trains) > 1
                invariant
                    old(self).wf(),
                    train_list(old(self).trains).len() >= 1,
                    Self::trains_wf(train_list(self.trains)),
                    train_list(self.trains).len() >= 1,
                    train_list(self.trains)[0] == train_list(old(self).trains)[0],
                    self.same_but_trains(*old(self)),
                    self.rand == old(self).rand,
                decreases train_list(self.trains).len(),
            {
                let _ = trains_pop(&mut self.trains);
            }
            let mut train = trains_pop(&mut self.trains).unwrap();
            train.init_cars(cargo, num_cars, max_cars);
            train.set_speed(DEFAULT_SPEED);
            let _ = trains_push(&mut self.trains, train);
            self.redraw = true;
        } else {
            self.add_train(cargo, num_cars, max_cars, None);
        }
    }

    /// Offers `cargo` on every platform that holds some, blinking at the normal pace.
    pub fn init_platforms(&mut self, cargo: Cargo)
        requires
            old(self).wf(),
        ensures
            final(self).wf(),
            train_list(final(self).trains) == train_list(old(self).trains),
            final(self).switches@ == old(self).switches@,
            final(self).rand == old(self).rand,
            final(self).display == old(self).display,
            final(self).redraw == old(self).redraw,
            final(self).is_over == old(self).is_over,
            final(self).is_paused == old(self).is_paused,
            final(self).settings == old(self).settings,
            final(self).target_mode_index == old(self).target_mode_index,
            platforms_after_init(final(self).platforms@, old(self).platforms@, cargo),
    {
        let mut k: usize = 0;
        while k < self.platforms.len()
            invariant
                0 <= k <= NUM_PLATFORMS,
                self.platforms@.len() == NUM_PLATFORMS,
                Self::platforms_wf(self.platforms@),
                forall|j: int| 0 <= j < NUM_PLATFORMS ==> (#[trigger] self.platforms@[j]).same_display(old(self).platforms@[j]),
                forall|j: int| k <= j < NUM_PLATFORMS ==> #[trigger] self.platforms@[j] == old(self).platforms@[j],
                forall|j: int| 0 <= j < k ==> {
                    let p = #[trigger] self.platforms@[j];
                    let o = old(self).platforms@[j];
                    if o.empty() {
                        p.held() == o.held() && p.incoming() == o.incoming() && p.phase_step() == o.phase_step()
                    } else {
                        p.held() == cargo && !p.incoming() && p.phase_step() == 1
                    }
                },
                train_list(self.trains) == train_list(old(self).trains),
                self.switches@ == old(self).switches@,
                self.rand == old(self).rand,
                self.display == old(self).display,
                self.redraw == old(self).redraw,
                self.is_over == old(self).is_over,
                self.is_paused == old(self).is_paused,
                self.settings == old(self).settings,
                self.target_mode_index == old(self).target_mode_index,
            decreases NUM_PLATFORMS - k,
        {
            let mut platform = self.platforms[k];
            if !platform.is_empty() {
                platform.set_cargo_out(cargo);
                platform.set_phase_speed(1);
            }
            self.platforms.set(k, platform);
            k += 1;
        }
    }

    /// Empties every platform.
    pub fn clear_platforms(&mut self)
        requires
            old(self).wf(),
        ensures
            final(self).wf(),
            train_list(final(self).trains) == train_list(old(self).trains),
            final(self).switches@ == old(self).switches@,
            final(self).rand == old(self).rand,
            final(self).display == old(self).display,
            final(self).redraw == old(self).redraw,
            final(self).is_over == old(self).is_over,
            final(self).is_paused == old(self).is_paused,
            final(self).settings == old(self).settings,
            final(self).target_mode_index == old(self).target_mode_index,
            platforms_after_clear(final(self).platforms@, old(self).platforms@),
    {
        let mut k: usize = 0;
        while k < self.platforms.len()
            invariant
                0 <= k <= NUM_PLATFORMS,
                self.platforms@.len() == NUM_PLATFORMS,
                Self::platforms_wf(self.platforms@),
                forall|j: int| k <= j < NUM_PLATFORMS ==> #[trigger] self.platforms@[j] == old(self).platforms@[j],
                forall|j: int| 0 <= j < k ==> {
                    let p = #[trigger] self.platforms@[j];
                    let o = old(self).platforms@[j];
                    &&& p.same_display(o)
                    &&& p.held() == Cargo::Empty
                    &&& p.incoming() == o.incoming()
                    &&& p.phase_step() == o.phase_step()
                },
                train_list(self.trains) == train_list(old(self).trains),
                self.switches@ == old(self).switches@,
                self.rand == old(self).rand,
                self.display == old(self).display,
                self.redraw == old(self).redraw,
                self.is_over == old(self).is_over,
                self.is_paused == old(self).is_paused,
                self.settings == old(self).settings,
                self.target_mode_index == old(self).target_mode_index,
            decreases NUM_PLATFORMS - k,
        {
            let mut platform = self.platforms[k];
            platform.clear_cargo();
            self.platforms.set(k, platform);
            k += 1;
        }
    }

    /// When train `train_index` has just left a switch, toggles that switch.
    /// A switch is left when its active neighbor in some direction is where
    /// the caboose was before the last move, and the caboose is not on it.
    pub fn train_switch(&mut self, train_index: usize)
        requires
            old(self).wf(),
            train_index < train_list(old(self).trains).len(),
        ensures
            final(self).wf(),
            train_list(final(self).trains) == train_list(old(self).trains),
            final(self).platforms@ == old(self).platforms@,
            final(self).rand == old(self).rand,
            final(self).display == old(self).display,
            final(self).redraw == old(self).redraw,
            final(self).is_over == old(self).is_over,
            final(self).is_paused == old(self).is_paused,
            final(self).settings == old(self).settings,
            final(self).target_mode_index == old(self).target_mode_index,
            final(self).switches@.len() == NUM_SWITCHES,
            forall|k: int| 0 <= k < NUM_SWITCHES ==> {
                let s = #[trigger] final(self).switches@[k];
                let o = old(self).switches@[k];
                let t = train_list(old(self).trains)[train_index as int];
                let left = o.loc() != t.caboose_car().loc && (o.active(Direction::Anode) == Some(t.last())
                    || o.active(Direction::Cathode) == Some(t.last()));
                &&& s.same_but_choices(o)
                &&& (s.choice(Direction::Anode), s.choice(Direction::Cathode)) == if left {
                    Switch::next_choices(o.choice(Direction::Anode), o.choice(Direction::Cathode))
                } else {
                    (o.choice(Direction::Anode), o.choice(Direction::Cathode))
                }
            },
    {
        let caboose_loc = trains_slice(&self.trains)[train_index].caboose().loc;
        let last_loc = trains_slice(&self.trains)[train_index].last_loc();
        let mut k: usize = 0;
        while k < self.switches.len()
            invariant
                0 <= k <= NUM_SWITCHES,
                self.switches@.len() == NUM_SWITCHES,
                Self::switches_wf(self.switches@),
                caboose_loc == train_list(old(self).trains)[train_index as int].caboose_car().loc,
                last_loc == train_list(old(self).trains)[train_index as int].last(),
                forall|j: int| k <= j < NUM_SWITCHES ==> #[trigger] self.switches@[j] == old(self).switches@[j],
                forall|j: int| 0 <= j < k ==> {
                    let s = #[trigger] self.switches@[j];
                    let o = old(self).switches@[j];
                    let left = o.loc() != caboose_loc && (o.active(Direction::Anode) == Some(last_loc)
                        || o.active(Direction::Cathode) == Some(last_loc));
                    &&& s.same_but_choices(o)
                    &&& (s.choice(Direction::Anode), s.choice(Direction::Cathode)) == if left {
                        Switch::next_choices(o.choice(Direction::Anode), o.choice(Direction::Cathode))
                    } else {
                        (o.choice(Direction::Anode), o.choice(Direction::Cathode))
                    }
                },
                train_list(self.trains) == train_list(old(self).trains),
                self.platforms@ == old(self).platforms@,
                self.rand == old(self).rand,
                self.display == old(self).display,
                self.redraw == old(self).redraw,
                self.is_over == old(self).is_over,
                self.is_paused == old(self).is_paused,
                self.settings == old(self).settings,
                self.target_mode_index == old(self).target_mode_index,
            decreases NUM_SWITCHES - k,
        {
            let mut switch = self.switches[k];
            if caboose_loc != switch.location() {
                if switch.active_location(Direction::Anode) == Some(last_loc) {
                    switch.switch();
                } else if switch.active_location(Direction::Cathode) == Some(last_loc) {
                    switch.switch();
                }
            }
            self.switches.set(k, switch);
            k += 1;
        }
    }

    /// Whether the engine of train `train_index` is at the track of a
    /// platform holding cargo.
    pub fn train_ready_at_platform(&self, train_index: usize) -> (r: bool)
        requires
            self.wf(),
            train_index < train_list(self.trains).len(),
        ensures
            r == cargo_platform_at(self.platforms@, train_list(self.trains)[train_index as int].front_loc()),
    {
        let front = trains_slice(&self.trains)[train_index].front();
        self.cargo_platform_at_loc(front)
    }

    fn cargo_platform_at_loc(&self, loc: Location) -> (r: bool)
        requires
            self.wf(),
        ensures
            r == cargo_platform_at(self.platforms@, loc),
    {
        let mut k: usize = 0;
        while k < self.platforms.len()
            invariant
                0 <= k <= self.platforms@.len(),
                forall|j: int| 0 <= j < k ==> !((#[trigger] self.platforms@[j]).track() == loc && !self.platforms@[j].empty()),
            decreases self.platforms@.len() - k,
        {
            if self.platforms[k].track_location() == loc && !self.platforms[k].is_empty() {
                return true;
            }
            k += 1;
        }
        false
    }

    /// Whether train `train_index`, following the track (and the switches)
    /// from its engine, reaches the track of a platform holding cargo within
    /// `lookahead` moves.
    pub fn train_approaching_platform(&self, train_index: usize, lookahead: u8) -> (r: bool)
        requires
            self.wf(),
            train_index < train_list(self.trains).len(),
        ensures
            r == approaching(
                self.platforms@,
                self.switches@,
                train_list(self.trains)[train_index as int].front_loc(),
                train_list(self.trains)[train_index as int].dir(),
                lookahead as nat,
            ),
    {
        let mut loc = trains_slice(&self.trains)[train_index].front();
        let mut dir = trains_slice(&self.trains)[train_index].direction();
        let mut steps: u8 = lookahead;
        while steps > 0
            invariant
                self.wf(),
                loc.wf(),
                approaching(self.platforms@, self.switches@, loc, dir, steps as nat) == approaching(
                    self.platforms@,
                    self.switches@,
                    train_list(self.trains)[train_index as int].front_loc(),
                    train_list(self.trains)[train_index as int].dir(),
                    lookahead as nat,
                ),
            decreases steps,
        {
            let is_switched = self.switched_at_loc(loc, dir);
            let (next_loc, next_dir) = loc.next(dir, is_switched);
            if self.cargo_platform_at_loc(next_loc) {
                return true;
            }
            loc = next_loc;
            dir = next_dir;
            steps = steps - 1;
        }
        false
    }

    fn switched_at_loc(&self, loc: Location, dir: Direction) -> (r: bool)
        ensures
            r == crate::train::switched_at(self.switches@, loc, dir),
    {
        let mut k: usize = 0;
        while k < self.switches.len()
            invariant
                0 <= k <= self.switches@.len(),
                forall|j: int| 0 <= j < k ==> !((#[trigger] self.switches@[j]).loc() == loc && self.switches@[j].switched(dir)),
            decreases self.switches@.len() - k,
        {
            if self.switches[k].location() == loc && self.switches[k].is_switched(dir) {
                return true;
            }
            k += 1;
        }
        false
    }

    /// Every empty platform draws a random `u16` and, when it is at most
    /// `threshold`, offers new cargo of a pattern chosen as `kind` says.
    pub fn spawn_cargo(&mut self, threshold: u16, kind: SpawnKind)
        requires
            old(self).wf(),
        ensures
            final(self).wf(),
            train_list(final(self).trains) == train_list(old(self).trains),
            final(self).switches@ == old(self).switches@,
            final(self).display == old(self).display,
            final(self).redraw == old(self).redraw,
            final(self).is_over == old(self).is_over,
            final(self).is_paused == old(self).is_paused,
            final(self).settings == old(self).settings,
            final(self).target_mode_index == old(self).target_mode_index,
            final(self).platforms@.len() == NUM_PLATFORMS,
            ({
                let (spawned, st) = spawn_draws(old(self).platforms@, 0, old(self).rand.state, threshold, kind);
                &&& final(self).rand.state == st
                &&& forall|k: int| 0 <= k < NUM_PLATFORMS ==> spawned_into(#[trigger] final(self).platforms@[k], old(self).platforms@[k], spawned[k])
            }),
    {
        let ghost full = spawn_draws(old(self).platforms@, 0, old(self).rand.state, threshold, kind);
        proof {
            lemma_spawn_draws_len(old(self).platforms@, 0, old(self).rand.state, threshold, kind);
        }
        let mut k: usize = 0;
        while k < self.platforms.len()
            invariant
                0 <= k <= NUM_PLATFORMS,
                old(self).platforms@.len() == NUM_PLATFORMS,
                self.rand.wf(),
                self.platforms@.len() == NUM_PLATFORMS,
                Self::platforms_wf(self.platforms@),
                forall|j: int| k <= j < NUM_PLATFORMS ==> #[trigger] self.platforms@[j] == old(self).platforms@[j],
                spawn_draws(old(self).platforms@, k as int, self.rand.state, threshold, kind).1 == full.1,
                full.0.len() == NUM_PLATFORMS,
                full.0.subrange(k as int, NUM_PLATFORMS as int) == spawn_draws(old(self).platforms@, k as int, self.rand.state, threshold, kind).0,
                forall|j: int| 0 <= j < k ==> spawned_into(#[trigger] self.platforms@[j], old(self).platforms@[j], full.0[j]),
                train_list(self.trains) == train_list(old(self).trains),
                self.switches@ == old(self).switches@,
                self.display == old(self).display,
                self.redraw == old(self).redraw,
                self.is_over == old(self).is_over,
                self.is_paused == old(self).is_paused,
                self.settings == old(self).settings,
                self.target_mode_index == old(self).target_mode_index,
            decreases NUM_PLATFORMS - k,
        {
            let ghost before = self.rand.state;
            let platform = spawn_one(self.platforms[k], threshold, kind, &mut self.rand);
            self.platforms.set(k, platform);
            proof {
                lemma_spawn_draws_len(old(self).platforms@, k + 1, self.rand.state, threshold, kind);
                assert(full.0.subrange(k + 1, NUM_PLATFORMS as int) =~= full.0.subrange(k as int, NUM_PLATFORMS as int).drop_first());
                assert(full.0[k as int] == full.0.subrange(k as int, NUM_PLATFORMS as int)[0]);
            }
            k += 1;
        }
    }

    /// Empties the platforms holding cargo whose track is `loc` (where a
    /// train just arrived); returns how many there were.
    pub fn clear_cargo_at(&mut self, loc: Location) -> (r: u16)
        requires
            old(self).wf(),
        ensures
            final(self).wf(),
            train_list(final(self).trains) == train_list(old(self).trains),
            final(self).switches@ == old(self).switches@,
            final(self).rand == old(self).rand,
            final(self).display == old(self).display,
            final(self).redraw == old(self).redraw,
            final(self).is_over == old(self).is_over,
            final(self).is_paused == old(self).is_paused,
            final(self).settings == old(self).settings,
            final(self).target_mode_index == old(self).target_mode_index,
            platforms_after_arrival(final(self).platforms@, old(self).platforms@, loc),
            r == served_count(old(self).platforms@, loc, NUM_PLATFORMS as int),
    {
        let mut count: u16 = 0;
        let mut k: usize = 0;
        while k < self.platforms.len()
            invariant
                0 <= k <= NUM_PLATFORMS,
                old(self).platforms@.len() == NUM_PLATFORMS,
                self.platforms@.len() == NUM_PLATFORMS,
                Self::platforms_wf(self.platforms@),
                count == served_count(old(self).platforms@, loc, k as int),
                count <= k,
                forall|j: int| k <= j < NUM_PLATFORMS ==> #[trigger] self.platforms@[j] == old(self).platforms@[j],
                forall|j: int| 0 <= j < k ==> {
                    &&& (#[trigger] self.platforms@[j]).same_display(old(self).platforms@[j])
                    &&& self.platforms@[j].incoming() == old(self).platforms@[j].incoming()
                    &&& self.platforms@[j].phase_step() == old(self).platforms@[j].phase_step()
                    &&& self.platforms@[j].held() == if serves(old(self).platforms@[j], loc) { Cargo::Empty } else { old(self).platforms@[j].held() }
                },
                train_list(self.trains) == train_list(old(self).trains),
                self.switches@ == old(self).switches@,
                self.rand == old(self).rand,
                self.display == old(self).display,
                self.redraw == old(self).redraw,
                self.is_over == old(self).is_over,
                self.is_paused == old(self).is_paused,
                self.settings == old(self).settings,
                self.target_mode_index == old(self).target_mode_index,
            decreases NUM_PLATFORMS - k,
        {
            let mut platform = self.platforms[k];
            if !platform.is_empty() && loc == platform.track_location() {
                platform.clear_cargo();
                count = count + 1;
            }
            self.platforms.set(k, platform);
            k += 1;
        }
        count
    }
}

/// How new cargo is chosen when platforms spawn cargo.
#[derive(Clone, Copy, Debug, PartialEq, Eq, Structural)]
pub enum SpawnKind {
    /// Always solid cargo.
    Solid,
    /// A random pattern out of five (blinks, fade or solid).
    AnyPattern,
    /// A random pattern out of four (blinks or solid).
    TimedPattern,
}

/// The pattern picked for random value `v`.
pub open spec fn pattern_for(kind: SpawnKind, v: u8) -> LedPattern {
    if v == 0 {
        LedPattern::Blink1
    } else if v == 1 {
        LedPattern::Blink2
    } else if v == 2 {
        LedPattern::Blink3
    } else if v == 3 && kind == SpawnKind::AnyPattern {
        LedPattern::Fade
    } else {
        LedPattern::Solid
    }
}

/// The pattern of newly spawned cargo and the generator state after choosing it.
pub open spec fn pattern_draw(kind: SpawnKind, s: RngState) -> (LedPattern, RngState) {
    match kind {
        SpawnKind::Solid => (LedPattern::Solid, s),
        SpawnKind::AnyPattern => (pattern_for(kind, range_draw(s, 0, 4).0), range_draw(s, 0, 4).1),
        SpawnKind::TimedPattern => (pattern_for(kind, range_draw(s, 0, 3).0), range_draw(s, 0, 3).1),
    }
}

/// One platform's turn: an empty platform draws a random `u16` and spawns
/// cargo when it is at most `threshold`. The spawned pattern (if any) and the
/// generator state after the turn.
pub open spec fn spawn_step(p: Platform, s: RngState, threshold: u16, kind: SpawnKind) -> (Option<LedPattern>, RngState) {
    if p.empty() {
        let (v, s1) = u16_draw(s);
        if v <= threshold {
            let (pattern, s2) = pattern_draw(kind, s1);
            (Some(pattern), s2)
        } else {
            (None, s1)
        }
    } else {
        (None, s)
    }
}

/// Platforms `k..` take their turns in order: the pattern each spawns (if
/// any), and the generator state after all.
pub open spec fn spawn_draws(ps: Seq<Platform>, k: int, s: RngState, threshold: u16, kind: SpawnKind) -> (Seq<Option<LedPattern>>, RngState)
    decreases ps.len() - k,
{
    if k >= ps.len() || k < 0 {
        (Seq::empty(), s)
    } else {
        let (o, s1) = spawn_step(ps[k], s, threshold, kind);
        let (rest, s2) = spawn_draws(ps, k + 1, s1, threshold, kind);
        (seq![o] + rest, s2)
    }
}

proof fn lemma_spawn_draws_len(ps: Seq<Platform>, k: int, s: RngState, threshold: u16, kind: SpawnKind)
    requires
        0 <= k <= ps.len(),
    ensures
        spawn_draws(ps, k, s, threshold, kind).0.len() == ps.len() - k,
    decreases ps.len() - k,
{
    if k < ps.len() {
        lemma_spawn_draws_len(ps, k + 1, spawn_step(ps[k], s, threshold, kind).1, threshold, kind);
    }
}

/// One platform's turn of `spawn_cargo`.
fn spawn_one(platform: Platform, threshold: u16, kind: SpawnKind, rand: &mut Rand) -> (r: Platform)
    requires
        old(rand).wf(),
        platform.wf(),
    ensures
        final(rand).wf(),
        r.wf(),
        ({
            let (spawned, st) = spawn_step(platform, old(rand).state, threshold, kind);
            &&& final(rand).state == st
            &&& spawned_into(r, platform, spawned)
        }),
{
    let mut platform = platform;
    if platform.is_empty() && rand.get_u16() <= threshold {
        let pattern = match kind {
            SpawnKind::Solid => LedPattern::Solid,
            SpawnKind::AnyPattern => match rand.from_range(0, 4) {
                0 => LedPattern::Blink1,
                1 => LedPattern::Blink2,
                2 => LedPattern::Blink3,
                3 => LedPattern::Fade,
                _ => LedPattern::Solid,
            },
            SpawnKind::TimedPattern => match rand.from_range(0, 3) {
                0 => LedPattern::Blink1,
                1 => LedPattern::Blink2,
                2 => LedPattern::Blink3,
                _ => LedPattern::Solid,
            },
        };
        platform.set_cargo_out(Cargo::Full(pattern));
    }
    platform
}

/// `p` is `o` after offering cargo with pattern `spawned` (if any).
pub open spec fn spawned_into(p: Platform, o: Platform, spawned: Option<LedPattern>) -> bool {
    &&& p.same_display(o)
    &&& p.phase_step() == o.phase_step()
    &&& match spawned {
        Some(pattern) => p.held() == Cargo::Full(pattern) && !p.incoming(),
        None => p.held() == o.held() && p.incoming() == o.incoming(),
    }

}

/// Replacing a train by a well-formed one with storage of the same size,
/// placed on the board whenever the old one was,
/// keeps the trains well-formed.
pub proof fn lemma_trains_update(ts: Seq<Train>, i: int, t: Train)
    requires
        GameState::trains_wf(ts),
        0 <= i < ts.len(),
        t.wf(),
        ts[i].storage_placed() ==> t.storage_placed(),
        t.storage().len() == ts[i].storage().len(),
    ensures
        GameState::trains_wf(ts.update(i, t)),
{
    assert forall|k: int| 0 <= k < ts.len() implies (#[trigger] ts.update(i, t)[k]).wf()
        && ts.update(i, t)[k].storage_placed()
        && ts.update(i, t)[k].storage().len() == storage_size(k) by {
        if k != i {
            assert(ts.update(i, t)[k] == ts[k]);
        }
    }
}

/// Trains `ts` are trains `os` with the speed of train `k` set to `speed`
/// (or unchanged, when there is no train `k`).
pub open spec fn trains_speed_set(ts: Seq<Train>, os: Seq<Train>, k: int, speed: u8) -> bool {
    if 0 <= k < os.len() {
        &&& ts.len() == os.len()
        &&& forall|j: int| 0 <= j < os.len() && j != k ==> #[trigger] ts[j] == os[j]
        &&& ts[k].speed_set_from(os[k], speed)
    } else {
        ts == os
    }
}

/// `s` is `o` after `spawn_cargo(threshold, kind)`: only the platforms and
/// the generator changed, as the platforms' turns in order say.
pub open spec fn after_spawn(s: GameState, o: GameState, threshold: u16, kind: SpawnKind) -> bool {
    let (spawned, st) = spawn_draws(o.platforms@, 0, o.rand.state, threshold, kind);
    &&& train_list(s.trains) == train_list(o.trains)
    &&& s.switches@ == o.switches@
    &&& s.display == o.display
    &&& s.redraw == o.redraw
    &&& s.is_over == o.is_over
    &&& s.is_paused == o.is_paused
    &&& s.settings == o.settings
    &&& s.target_mode_index == o.target_mode_index
    &&& s.platforms@.len() == NUM_PLATFORMS
    &&& s.rand.state == st
    &&& forall|k: int| 0 <= k < NUM_PLATFORMS ==> spawned_into(#[trigger] s.platforms@[k], o.platforms@[k], spawned[k])
}

/// `s` is `o` after a train arrived at `loc` (`clear_cargo_at(loc)`): only
/// the platforms serving `loc` changed, emptied.
pub open spec fn after_arrival(s: GameState, o: GameState, loc: Location) -> bool {
    &&& train_list(s.trains) == train_list(o.trains)
    &&& s.switches@ == o.switches@
    &&& s.rand == o.rand
    &&& s.display == o.display
    &&& s.redraw == o.redraw
    &&& s.is_over == o.is_over
    &&& s.is_paused == o.is_paused
    &&& s.settings == o.settings
    &&& s.target_mode_index == o.target_mode_index
    &&& platforms_after_arrival(s.platforms@, o.platforms@, loc)
}

/// The trains after `init_trains(cargo, num_cars, max_cars)`, from trains `o`.
pub open spec fn trains_after_init(t: Seq<Train>, o: Seq<Train>, platforms: Seq<Platform>, cargo: Cargo, num_cars: u8, max_cars: u8) -> bool {
    &&& t.len() == 1
    &&& o.len() == 0 ==> new_train(t[0], platforms, cargo, num_cars, max_cars, None)
    &&& o.len() > 0 ==> {
        &&& t[0].cap() == max_cars
        &&& t[0].cars_seq().len() == num_cars
        &&& forall|k: int| 0 <= k < num_cars ==> #[trigger] t[0].cars_seq()[k] == (Car { cargo, last_brightness: 0, ..o[0].storage()[k] })
        &&& t[0].spd() == DEFAULT_SPEED
        &&& t[0].counter() == 0
        &&& t[0].dir() == o[0].dir()
        &&& t[0].last() == o[0].last()
        &&& t[0].phase_value() == o[0].phase_value()
    }
}

/// The platforms after `init_platforms(cargo)`, from platforms `o`.
pub open spec fn platforms_after_init(p: Seq<Platform>, o: Seq<Platform>, cargo: Cargo) -> bool {
    &&& p.len() == NUM_PLATFORMS
    &&& forall|k: int| 0 <= k < NUM_PLATFORMS ==> {
        &&& (#[trigger] p[k]).same_display(o[k])
        &&& if o[k].empty() {
            p[k].held() == o[k].held() && p[k].incoming() == o[k].incoming() && p[k].phase_step() == o[k].phase_step()
        } else {
            p[k].held() == cargo && !p[k].incoming() && p[k].phase_step() == 1
        }
    }
}

/// The platforms after `clear_platforms`, from platforms `o`.
pub open spec fn platforms_after_clear(p: Seq<Platform>, o: Seq<Platform>) -> bool {
    &&& p.len() == NUM_PLATFORMS
    &&& forall|k: int| 0 <= k < NUM_PLATFORMS ==> {
        &&& (#[trigger] p[k]).same_display(o[k])
        &&& p[k].held() == Cargo::Empty
        &&& p[k].incoming() == o[k].incoming()
        &&& p[k].phase_step() == o[k].phase_step()
    }
}

/// Whether platform `o` holds cargo at track `loc` (and so is emptied by a train arriving there).
pub open spec fn serves(o: Platform, loc: Location) -> bool {
    !o.empty() && o.track() == loc
}

/// The platforms after a train arrived at `loc`: those serving `loc` are emptied.
pub open spec fn platforms_after_arrival(p: Seq<Platform>, o: Seq<Platform>, loc: Location) -> bool {
    &&& p.len() == o.len()
    &&& forall|k: int| 0 <= k < o.len() ==> {
        &&& (#[trigger] p[k]).same_display(o[k])
        &&& p[k].incoming() == o[k].incoming()
        &&& p[k].phase_step() == o[k].phase_step()
        &&& p[k].held() == if serves(o[k], loc) { Cargo::Empty } else { o[k].held() }
    }
}

/// The number of platforms among the first `n` of `ps` serving `loc`.
pub open spec fn served_count(ps: Seq<Platform>, loc: Location, n: int) -> nat
    decreases n,
{
    if n <= 0 {
        0
    } else {
        served_count(ps, loc, n - 1) + if serves(ps[n - 1], loc) { 1nat } else { 0nat }
    }
}

/// Some platform holding cargo has its track at `loc`.
pub open spec fn cargo_platform_at(platforms: Seq<Platform>, loc: Location) -> bool {
    exists|k: int| 0 <= k < platforms.len() && (#[trigger] platforms[k]).track() == loc && !platforms[k].empty()
}

/// Moving on from `loc` in `dir` (taking forks where the switches say so)
/// reaches a cargo platform's track within `steps` moves.
pub open spec fn approaching(platforms: Seq<Platform>, switches: Seq<Switch>, loc: Location, dir: Direction, steps: nat) -> bool
    decreases steps,
{
    if steps == 0 {
        false
    } else {
        let (next_loc, next_dir) = loc.next_spec(dir, crate::train::switched_at(switches, loc, dir));
        cargo_platform_at(platforms, next_loc) || approaching(platforms, switches, next_loc, next_dir, (steps - 1) as nat)
    }
}

/// `t` is a fresh train of `num_cars` cars (at most `max_cars`) carrying
/// `cargo`, its engine at the track of one of `platforms`, each further car
/// placed behind the cars before it.
pub open spec fn new_train(t: Train, platforms: Seq<Platform>, cargo: Cargo, num_cars: u8, max_cars: u8, speed: Option<u8>) -> bool {
    &&& t.cars_seq().len() == if num_cars <= 1 { 1 } else if num_cars <= max_cars { num_cars } else { max_cars }
    &&& (exists|k: int| 0 <= k < platforms.len() && t.front_loc() == (#[trigger] platforms[k]).track())
    &&& forall|i: int| 0 <= i < t.cars_seq().len() ==> (#[trigger] t.cars_seq()[i]).cargo == cargo && t.cars_seq()[i].last_brightness == 0
    &&& forall|i: int| 1 <= i < t.cars_seq().len() ==> (#[trigger] t.cars_seq()[i]).loc == crate::train::car_behind(t.cars_seq().take(i), t.dir())
    &&& t.dir() == Direction::Cathode
    &&& t.spd() == match speed { Some(s) => s, None => DEFAULT_SPEED }
    &&& t.counter() == 0
    &&& t.cap() == max_cars
}

/// A train with `size` cars of storage, built at `loc` as `add_train` describes.
fn build_train(size: usize, loc: Location, cargo: Cargo, num_cars: u8, max_cars: u8, speed: Option<u8>, rand: &mut Rand) -> (r: Train)
    requires
        old(rand).wf(),
        loc.wf(),
        1 <= max_cars <= size <= MAX_CARS,
        speed matches Some(s) ==> s <= MAX_SPEED,
    ensures
        final(rand).wf(),
        r.wf(),
        r.storage_placed(),
        r.storage().len() == size,
        r.front_loc() == loc,
        r.cars_seq().len() == if num_cars <= 1 { 1 } else if num_cars <= max_cars { num_cars } else { max_cars },
        forall|i: int| 0 <= i < r.cars_seq().len() ==> (#[trigger] r.cars_seq()[i]).cargo == cargo && r.cars_seq()[i].last_brightness == 0,
        forall|i: int| 1 <= i < r.cars_seq().len() ==> (#[trigger] r.cars_seq()[i]).loc == crate::train::car_behind(r.cars_seq().take(i), r.dir()),
        r.dir() == Direction::Cathode,
        r.spd() == match speed { Some(s) => s, None => DEFAULT_SPEED },
        r.counter() == 0,
        r.cap() == max_cars,
{
    let mut storage: Vec<Car> = Vec::new();
    while storage.len() < size
        invariant
            storage@.len() <= size,
            size <= MAX_CARS,
            loc.wf(),
            forall|k: int| 0 <= k < storage@.len() ==> (#[trigger] storage@[k]) == (Car { loc, cargo: Cargo::Empty, last_brightness: 0 }),
        decreases size - storage@.len(),
    {
        storage.push(Car { loc, cargo: Cargo::Empty, last_brightness: 0 });
    }
    proof {
        assert forall|k: int| 0 <= k < storage@.len() implies (#[trigger] storage@[k]).loc.wf() by {
            assert(storage@[k] == (Car { loc, cargo: Cargo::Empty, last_brightness: 0 }));
        }
    }
    let mut train = Train::new(storage, max_cars, loc, cargo, speed, rand);
    let mut i: u8 = 1;
    while i < num_cars
        invariant
            train.wf(),
            train.storage_placed(),
            1 <= i,
            num_cars > 1 ==> i <= num_cars,
            num_cars <= 1 ==> i == 1,
            train.cars_seq().len() == if i <= max_cars { i } else { max_cars },
            train.storage().len() == size,
            train.front_loc() == loc,
            forall|k: int| 0 <= k < train.cars_seq().len() ==> (#[trigger] train.cars_seq()[k]).cargo == cargo && train.cars_seq()[k].last_brightness == 0,
            forall|k: int| 0 <= k < train.spare_seq().len() ==> (#[trigger] train.spare_seq()[k]).last_brightness == 0,
            forall|k: int| 1 <= k < train.cars_seq().len() ==> (#[trigger] train.cars_seq()[k]).loc == crate::train::car_behind(train.cars_seq().take(k), train.dir()),
            train.dir() == Direction::Cathode,
            train.spd() == match speed { Some(s) => s, None => DEFAULT_SPEED },
            train.counter() == 0,
            train.cap() == max_cars,
        decreases num_cars - i,
    {
        let ghost before = train.cars_seq();
        train.add_car(cargo);
        proof {
            if before.len() < max_cars {
                assert(train.cars_seq().take(before.len() as int) =~= before);
                assert forall|k: int| 1 <= k < train.cars_seq().len() implies (#[trigger] train.cars_seq()[k]).loc == crate::train::car_behind(train.cars_seq().take(k), train.dir()) by {
                    if k < before.len() {
                        assert(train.cars_seq().take(k) =~= before.take(k));
                    }
                }
            }
        }
        i += 1;
    }
    proof {
        if num_cars > 1 {
            assert(i == num_cars);
            assert(train.cars_seq().len() == if num_cars <= max_cars { num_cars } else { max_cars });
        } else {
            assert(train.cars_seq().len() == 1);
        }
    }
    train
}

/// State `s` is `os` with switch `index` toggled (see `Switch::switch`).
pub open spec fn switch_toggled(s: GameState, os: GameState, index: int) -> bool {
    &&& train_list(s.trains) == train_list(os.trains)
    &&& s.platforms@ == os.platforms@
    &&& s.rand == os.rand
    &&& s.display == os.display
    &&& s.redraw == os.redraw
    &&& s.is_over == os.is_over
    &&& s.is_paused == os.is_paused
    &&& s.settings == os.settings
    &&& s.target_mode_index == os.target_mode_index
    &&& s.switches@.len() == NUM_SWITCHES
    &&& forall|j: int| 0 <= j < NUM_SWITCHES && j != index ==> #[trigger] s.switches@[j] == os.switches@[j]
    &&& ({
        let w = s.switches@[index];
        let o = os.switches@[index];
        &&& w.same_but_choices(o)
        &&& (w.choice(Direction::Anode), w.choice(Direction::Cathode)) == Switch::next_choices(o.choice(Direction::Anode), o.choice(Direction::Cathode))
    })
}

} // verus!
