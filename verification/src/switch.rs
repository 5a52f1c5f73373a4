//! Switches: forks and crosses whose button chooses where a train goes.
use vstd::prelude::*;

use crate::cargo::LedPattern;
use crate::common::LedUpdate;
use crate::game_settings::GameSettings;
use crate::location::{Direction, Location, NUM_SWITCHES};
use crate::random::Rand;
use crate::train::Train;

verus! {

/// The brightness a switch shows at `phase`: a fade between half and full
/// switch brightness.
pub open spec fn fade_level(phase: u8, settings: &GameSettings) -> u8 {
    LedPattern::Fade.pwm(phase, settings.switch_max() / 2, settings.switch_max())
}

/// Some train has a car at `loc`.
pub open spec fn any_occupies(trains: Seq<Train>, loc: Location) -> bool {
    exists|t: int| 0 <= t < trains.len() && (#[trigger] trains[t]).occupies(loc)
}

/// Where the switch sends trains in direction `d` (given it chooses there).
pub open spec fn active_of(s: Switch, d: Direction) -> Location {
    if s.switched(d) { s.fork(d).unwrap() } else { s.straight(d) }
}

/// The neighbor in direction `d` the switch does not send trains to.
pub open spec fn inactive_of(s: Switch, d: Direction) -> Location {
    if s.switched(d) { s.straight(d) } else { s.fork(d).unwrap() }
}

/// The updates drawn for direction `d` of `s` in one tick.
pub open spec fn direction_updates(s: Switch, d: Direction, trains: Seq<Train>, bright: u8, force: bool) -> Seq<LedUpdate> {
    if s.choice(d) is None {
        Seq::empty()
    } else {
        let off = if !any_occupies(trains, inactive_of(s, d)) {
            seq![LedUpdate { location: inactive_of(s, d), pwm: 0 }]
        } else {
            Seq::empty()
        };
        let on = if !any_occupies(trains, active_of(s, d)) && (force || bright != s.last_brightness(d)) {
            seq![LedUpdate { location: active_of(s, d), pwm: bright }]
        } else {
            Seq::empty()
        };
        off + on
    }
}

/// The last brightness recorded for direction `d` after one tick.
pub open spec fn direction_last(s: Switch, d: Direction, trains: Seq<Train>, bright: u8, force: bool) -> u8 {
    if s.choice(d) is Some && !any_occupies(trains, active_of(s, d)) && (force || bright != s.last_brightness(d)) {
        bright
    } else {
        s.last_brightness(d)
    }
}

/// Whether some train has a car at `loc`.
fn any_train_at(trains: &[Train], loc: Location) -> (r: bool)
    ensures
        r == any_occupies(trains@, loc),
{
    let mut t: usize = 0;
    while t < trains.len()
        invariant
            0 <= t <= trains@.len(),
            forall|j: int| 0 <= j < t ==> !(#[trigger] trains@[j]).occupies(loc),
        decreases trains@.len() - t,
    {
        if trains[t].at_location(loc) {
            return true;
        }
        t += 1;
    }
    false
}

/// The straight and fork neighbors of `location` in `direction`; a choice
/// (starting from a random boolean) only where they differ.
fn setup_direction(location: Location, direction: Direction, rand: &mut Rand) -> (r: (
    Option<bool>,
    Location,
    Option<Location>,
))
    requires
        old(rand).wf(),
        location.wf(),
    ensures
        final(rand).wf(),
        r.1 == location.next_spec(direction, false).0,
        r.1.wf(),
        location.next_spec(direction, false).0 == location.next_spec(direction, true).0 ==> r.0 is None && r.2 is None,
        location.next_spec(direction, false).0 != location.next_spec(direction, true).0 ==> r.0 == Some(false) && r.2 == Some(location.next_spec(direction, true).0),
        r.2 matches Some(f) ==> f.wf(),
{
    let next = location.next_loc(direction, false);
    let fork = location.next_loc(direction, true);
    if next == fork {
        (None, next, None)
    } else {
        (Some(rand.get_bool()), next, Some(fork))
    }
}

/// Draws one direction of a switch into `updates` and returns its new last brightness.
fn handle_direction(
    is_switched: Option<bool>,
    last_brightness: u8,
    next_location: Location,
    fork_location: Option<Location>,
    trains: &[Train],
    brightness: u8,
    force_update: bool,
    updates: &mut Vec<LedUpdate>,
) -> (r: u8)
    requires
        is_switched is Some ==> fork_location is Some,
    ensures
        ({
            let s_active = match is_switched { Some(b) => if b { fork_location.unwrap() } else { next_location }, None => next_location };
            let s_inactive = match is_switched { Some(b) => if b { next_location } else { fork_location.unwrap() }, None => next_location };
            &&& is_switched is None ==> final(updates)@ == old(updates)@ && r == last_brightness
            &&& is_switched is Some ==> {
                let off = if !any_occupies(trains@, s_inactive) {
                    seq![LedUpdate { location: s_inactive, pwm: 0 }]
                } else {
                    Seq::empty()
                };
                let draw_on = !any_occupies(trains@, s_active) && (force_update || brightness != last_brightness);
                let on = if draw_on {
                    seq![LedUpdate { location: s_active, pwm: brightness }]
                } else {
                    Seq::empty()
                };
                &&& final(updates)@ == old(updates)@ + off + on
                &&& r == if draw_on { brightness } else { last_brightness }
            }
        }),
{
    match is_switched {
        Some(switched) => {
            let (active_loc, inactive_loc) = if switched {
                (fork_location.unwrap(), next_location)
            } else {
                (next_location, fork_location.unwrap())
            };
            let ghost before = updates@;
            if !any_train_at(trains, inactive_loc) {
                updates.push(LedUpdate::new(inactive_loc, 0));
            }
            let ghost middle = updates@;
            let mut last = last_brightness;
            if !any_train_at(trains, active_loc) {
                if force_update || brightness != last_brightness {
                    last = brightness;
                    updates.push(LedUpdate::new(active_loc, brightness));
                }
            }
            proof {
                let off = if !any_occupies(trains@, inactive_loc) {
                    seq![LedUpdate { location: inactive_loc, pwm: 0 }]
                } else {
                    Seq::<LedUpdate>::empty()
                };
                assert(middle =~= before + off);
            }
            last
        },
        None => last_brightness,
    }
}

/// A fork or cross of the track. In each direction it either has no choice
/// (`None`) or sends trains to the straight neighbor (`Some(false)`) or to the
/// fork neighbor (`Some(true)`). Forks choose in one direction, crosses in two.
#[derive(Clone, Copy)]
pub struct Switch {
    location: Location,
    phase: u8,
    anode_switched: Option<bool>,
    anode_next_location: Location,
    anode_fork_location: Option<Location>,
    anode_last_brightness: u8,
    cathode_switched: Option<bool>,
    cathode_next_location: Location,
    cathode_fork_location: Option<Location>,
    cathode_last_brightness: u8,
}

impl Switch {
    pub closed spec fn loc(self) -> Location {
        self.location
    }

    pub closed spec fn phase_value(self) -> u8 {
        self.phase
    }

    /// The choice in `direction`, if the switch has one there.
    pub closed spec fn choice(self, direction: Direction) -> Option<bool> {
        match direction {
            Direction::Anode => self.anode_switched,
            Direction::Cathode => self.cathode_switched,
        }
    }

    /// Where trains go in `direction` when not switched.
    pub closed spec fn straight(self, direction: Direction) -> Location {
        match direction {
            Direction::Anode => self.anode_next_location,
            Direction::Cathode => self.cathode_next_location,
        }
    }

    /// Where trains go in `direction` when switched.
    pub closed spec fn fork(self, direction: Direction) -> Option<Location> {
        match direction {
            Direction::Anode => self.anode_fork_location,
            Direction::Cathode => self.cathode_fork_location,
        }
    }

    pub closed spec fn last_brightness(self, direction: Direction) -> u8 {
        match direction {
            Direction::Anode => self.anode_last_brightness,
            Direction::Cathode => self.cathode_last_brightness,
        }
    }

    pub open spec fn switched(self, direction: Direction) -> bool {
        match self.choice(direction) {
            Some(b) => b,
            None => false,
        }
    }

    /// The neighbor a train leaving in `direction` is sent to, if the switch
    /// chooses in that direction.
    pub open spec fn active(self, direction: Direction) -> Option<Location> {
        match self.choice(direction) {
            Some(b) => if b { self.fork(direction) } else { Some(self.straight(direction)) },
            None => None,
        }
    }

    /// A choice exists exactly where a fork exists, and in at least one
    /// direction; the straight and fork neighbors are those of the layout.
    pub open spec fn wf(self) -> bool {
        &&& self.loc().wf()
        &&& (self.choice(Direction::Anode) is Some <==> self.fork(Direction::Anode) is Some)
        &&& (self.choice(Direction::Cathode) is Some <==> self.fork(Direction::Cathode) is Some)
        &&& (self.choice(Direction::Anode) is Some || self.choice(Direction::Cathode) is Some)
        &&& self.follows_layout(Direction::Anode)
        &&& self.follows_layout(Direction::Cathode)
    }

    /// In `direction` the switch sends trains to the neighbors its location
    /// has in the layout, and chooses exactly where those two differ.
    pub open spec fn follows_layout(self, direction: Direction) -> bool {
        let next = self.loc().next_spec(direction, false).0;
        let fork = self.loc().next_spec(direction, true).0;
        &&& self.straight(direction) == next
        &&& next == fork ==> self.choice(direction) is None && self.fork(direction) is None
        &&& next != fork ==> self.choice(direction) is Some && self.fork(direction) == Some(fork)
    }

    /// What `switch` does to the pair of choices: a fork flips; a cross steps
    /// through (false, false), (true, false), (true, true), (false, true).
    pub open spec fn next_choices(a: Option<bool>, c: Option<bool>) -> (Option<bool>, Option<bool>) {
        match (a, c) {
            (Some(a), None) => (Some(!a), None),
            (None, Some(c)) => (None, Some(!c)),
            (Some(a), Some(c)) => if a && c {
                (Some(false), Some(true))
            } else if a {
                (Some(true), Some(true))
            } else if c {
                (Some(false), Some(false))
            } else {
                (Some(true), Some(false))
            },
            (None, None) => (None, None),
        }
    }

    /// Everything but the choices is unchanged.
    pub open spec fn same_but_choices(self, other: Self) -> bool {
        &&& self.loc() == other.loc()
        &&& self.phase_value() == other.phase_value()
        &&& self.straight(Direction::Anode) == other.straight(Direction::Anode)
        &&& self.straight(Direction::Cathode) == other.straight(Direction::Cathode)
        &&& self.fork(Direction::Anode) == other.fork(Direction::Anode)
        &&& self.fork(Direction::Cathode) == other.fork(Direction::Cathode)
        &&& self.last_brightness(Direction::Anode) == other.last_brightness(Direction::Anode)
        &&& self.last_brightness(Direction::Cathode) == other.last_brightness(Direction::Cathode)
    }

    /// Toggles the switch.
    pub fn switch(&mut self)
        requires
            old(self).wf(),
        ensures
            final(self).wf(),
            final(self).same_but_choices(*old(self)),
            (final(self).choice(Direction::Anode), final(self).choice(Direction::Cathode))
                == Self::next_choices(
                old(self).choice(Direction::Anode),
                old(self).choice(Direction::Cathode),
            ),
    {
        match (self.anode_switched, self.cathode_switched) {
            (Some(a), None) => {
                self.anode_switched = Some(!a);
            },
            (None, Some(c)) => {
                self.cathode_switched = Some(!c);
            },
            (Some(a), Some(c)) => {
                if a && c {
                    self.anode_switched = Some(false);
                    self.cathode_switched = Some(true);
                } else if a {
                    self.anode_switched = Some(true);
                    self.cathode_switched = Some(true);
                } else if c {
                    self.anode_switched = Some(false);
                    self.cathode_switched = Some(false);
                } else {
                    self.anode_switched = Some(true);
                    self.cathode_switched = Some(false);
                }
            },
            (None, None) => {},
        }
    }

    pub fn is_switched(&self, direction: Direction) -> (r: bool)
        ensures
            r == self.switched(direction),
    {
        match direction {
            Direction::Anode => match self.anode_switched {
                Some(b) => b,
                None => false,
            },
            Direction::Cathode => match self.cathode_switched {
                Some(b) => b,
                None => false,
            },
        }
    }

    pub fn location(&self) -> (r: Location)
        ensures
            r == self.loc(),
    {
        self.location
    }

    /// The location a train at this switch goes to in `direction`, or `None`
    /// if the switch has no choice in that direction.
    pub fn active_location(&self, direction: Direction) -> (r: Option<Location>)
        ensures
            r == self.active(direction),
    {
        match direction {
            Direction::Anode => match self.anode_switched {
                Some(switched) => {
                    if switched {
                        self.anode_fork_location
                    } else {
                        Some(self.anode_next_location)
                    }
                },
                None => None,
            },
            Direction::Cathode => match self.cathode_switched {
                Some(switched) => {
                    if switched {
                        self.cathode_fork_location
                    } else {
                        Some(self.cathode_next_location)
                    }
                },
                None => None,
            },
        }
    }

    /// The switch at `location`, choosing in each direction where the track
    /// forks; each choice starts from one random boolean.
    fn new(location: Location, rand: &mut Rand) -> (r: Self)
        requires
            old(rand).wf(),
            location.wf(),
            location.is_switch(),
        ensures
            r.wf(),
            final(rand).wf(),
            r.loc() == location,
            r.phase_value() == 0,
            r.last_brightness(Direction::Anode) == 0,
            r.last_brightness(Direction::Cathode) == 0,
            Self::set_up(r, location, Direction::Anode),
            Self::set_up(r, location, Direction::Cathode),
    {
        proof {
            crate::layout::lemma_switch_has_choice(location);
        }
        let (anode_switched, anode_next_location, anode_fork_location) = setup_direction(
            location,
            Direction::Anode,
            rand,
        );
        let (cathode_switched, cathode_next_location, cathode_fork_location) = setup_direction(
            location,
            Direction::Cathode,
            rand,
        );
        Self {
            location,
            phase: 0,
            anode_switched,
            anode_next_location,
            anode_fork_location,
            anode_last_brightness: 0,
            cathode_switched,
            cathode_next_location,
            cathode_fork_location,
            cathode_last_brightness: 0,
        }
    }

    /// In `direction` the switch sends trains to the straight and fork
    /// neighbors of `location`, choosing (initially straight) only where they differ.
    pub open spec fn set_up(s: Self, location: Location, direction: Direction) -> bool {
        let next = location.next_spec(direction, false).0;
        let fork = location.next_spec(direction, true).0;
        &&& s.straight(direction) == next
        &&& if next == fork {
            s.choice(direction) is None && s.fork(direction) is None
        } else {
            s.choice(direction) == Some(false) && s.fork(direction) == Some(fork)
        }
    }

    /// The switches of the board, ordered as their buttons sit.
    pub fn take(rand: &mut Rand) -> (r: Vec<Switch>)
        requires
            old(rand).wf(),
        ensures
            final(rand).wf(),
            r@.len() == NUM_SWITCHES,
            forall|k: int| 0 <= k < NUM_SWITCHES ==> (#[trigger] r@[k]).wf(),
            forall|k: int| 0 <= k < NUM_SWITCHES ==> (#[trigger] r@[k]).phase_value() == 0,
            forall|k: int|
                0 <= k < NUM_SWITCHES ==> (#[trigger] r@[k]).loc().node_index
                    == crate::location::switches_below(crate::location::NUM_LOCATION_NODES as int)[crate::location::SWITCH_ORDER@[k] as int],
    {
        let locs = Location::switch_locs();
        let mut switches: Vec<Switch> = Vec::new();
        let mut k: usize = 0;
        while k < locs.len()
            invariant
                rand.wf(),
                locs@.len() == NUM_SWITCHES,
                forall|j: int|
                    0 <= j < NUM_SWITCHES ==> (#[trigger] locs@[j]).node_index
                        == crate::location::switches_below(crate::location::NUM_LOCATION_NODES as int)[crate::location::SWITCH_ORDER@[j] as int],
                0 <= k <= locs@.len(),
                switches@.len() == k,
                forall|j: int| 0 <= j < k ==> (#[trigger] switches@[j]).wf(),
                forall|j: int| 0 <= j < k ==> (#[trigger] switches@[j]).phase_value() == 0,
                forall|j: int| 0 <= j < k ==> (#[trigger] switches@[j]).loc() == locs@[j],
            decreases locs@.len() - k,
        {
            let location = locs[k];
            proof {
                assert(crate::location::SWITCH_ORDER@ == seq![6usize, 5, 3, 1, 4, 7, 0, 2]);
                crate::layout::lemma_switches_count();
                crate::location::lemma_switches_below(
                    crate::location::NUM_LOCATION_NODES as int,
                    crate::location::SWITCH_ORDER@[k as int] as int,
                );
            }
            switches.push(Switch::new(location, rand));
            k += 1;
        }
        switches
    }

    /// `self` is `o` after `update(settings, trains, force)`, which returned `r`.
    pub open spec fn updated_from(self, o: Self, settings: GameSettings, trains: Seq<Train>, force: bool, r: (bool, Seq<LedUpdate>)) -> bool {
        let phase = ((o.phase_value() + 1) % 256) as u8;
        let bright = fade_level(phase, &settings);
        &&& self.phase_value() == phase
        &&& r.1 == direction_updates(o, Direction::Anode, trains, bright, force) + direction_updates(o, Direction::Cathode, trains, bright, force)
        &&& r.0 == (r.1.len() > 0)
        &&& self.last_brightness(Direction::Anode) == direction_last(o, Direction::Anode, trains, bright, force)
        &&& self.last_brightness(Direction::Cathode) == direction_last(o, Direction::Cathode, trains, bright, force)
        &&& self.loc() == o.loc()
        &&& forall|d: Direction| #[trigger] self.choice(d) == o.choice(d) && self.straight(d) == o.straight(d) && self.fork(d) == o.fork(d)
    }

    /// One tick of the switch's animation: in each direction where it
    /// chooses, the neighbor it does not send trains to is darkened and the
    /// one it does is faded in and out (redrawn when its brightness changed
    /// or `force_update`); locations occupied by a train are left alone.
    /// Returns whether anything was drawn, and the updates in drawing order.
    #[verifier::spinoff_prover]
    #[verifier::rlimit(80)]
    pub fn update(
        &mut self,
        settings: &GameSettings,
        trains: &[Train],
        force_update: bool,
    ) -> (r: (bool, Vec<LedUpdate>))
        requires
            old(self).wf(),
        ensures
            final(self).wf(),
            ({
                let phase = ((old(self).phase_value() + 1) % 256) as u8;
                let bright = fade_level(phase, settings);
                &&& final(self).phase_value() == phase
                &&& r.1@ == direction_updates(*old(self), Direction::Anode, trains@, bright, force_update)
                    + direction_updates(*old(self), Direction::Cathode, trains@, bright, force_update)
                &&& r.0 == (r.1@.len() > 0)
                &&& final(self).last_brightness(Direction::Anode) == direction_last(*old(self), Direction::Anode, trains@, bright, force_update)
                &&& final(self).last_brightness(Direction::Cathode) == direction_last(*old(self), Direction::Cathode, trains@, bright, force_update)
                &&& final(self).loc() == old(self).loc()
                &&& forall|d: Direction| #[trigger] final(self).choice(d) == old(self).choice(d)
                    && final(self).straight(d) == old(self).straight(d) && final(self).fork(d) == old(self).fork(d)
            }),
    {
        self.phase = self.phase.wrapping_add(1);
        let sb = settings.switch_brightness();
        proof {
            assert(sb >> 1 == sb / 2) by (bit_vector);
        }
        let brightness = LedPattern::Fade.get_pwm(self.phase, sb >> 1, sb);
        let mut updates: Vec<LedUpdate> = Vec::new();
        let anode_last = handle_direction(
            self.anode_switched,
            self.anode_last_brightness,
            self.anode_next_location,
            self.anode_fork_location,
            trains,
            brightness,
            force_update,
            &mut updates,
        );
        self.anode_last_brightness = anode_last;
        let cathode_last = handle_direction(
            self.cathode_switched,
            self.cathode_last_brightness,
            self.cathode_next_location,
            self.cathode_fork_location,
            trains,
            brightness,
            force_update,
            &mut updates,
        );
        self.cathode_last_brightness = cathode_last;
        proof {
            assert(updates@ =~= direction_updates(*old(self), Direction::Anode, trains@, brightness, force_update)
                + direction_updates(*old(self), Direction::Cathode, trains@, brightness, force_update));
        }
        let update = updates.len() > 0;
        (update, updates)
    }
}

/// A fork (one choice) flips back after two presses of its button; a cross
/// (two choices) goes through four settings and is back after four presses.
/// Each press changes the setting of a switch that has a choice.
pub proof fn lemma_switch_cycle(a: Option<bool>, c: Option<bool>)
    ensures
        (a is Some || c is Some) ==> Switch::next_choices(a, c) != (a, c),
        (a is Some) != (c is Some) ==> {
            let n1 = Switch::next_choices(a, c);
            Switch::next_choices(n1.0, n1.1) == (a, c)
        },
        (a is Some && c is Some) ==> {
            let n1 = Switch::next_choices(a, c);
            let n2 = Switch::next_choices(n1.0, n1.1);
            let n3 = Switch::next_choices(n2.0, n2.1);
            let n4 = Switch::next_choices(n3.0, n3.1);
            &&& n4 == (a, c)
            &&& n2 != (a, c)
        },
{
}

/// Whatever sequence of presses and ticks a switch went through, where its
/// location forks in a direction it sends trains to the neighbor the layout
/// gives for its current setting, and elsewhere it chooses nothing and is
/// never switched.
pub proof fn lemma_switch_active(s: Switch, direction: Direction)
    requires
        s.wf(),
    ensures
        ({
            let l = s.loc();
            s.active(direction) == if l.next_spec(direction, false).0 != l.next_spec(direction, true).0 {
                Some(l.next_spec(direction, s.switched(direction)).0)
            } else {
                None::<Location>
            }
        }),
        s.active(direction) is None ==> !s.switched(direction),
{
}

} // verus!
