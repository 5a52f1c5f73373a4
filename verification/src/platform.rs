//! Platforms: red LEDs beside the track that offer cargo to trains or ask
//! for it.
use vstd::prelude::*;

use crate::cargo::Cargo;
use crate::common::LedUpdate;
use crate::game_settings::GameSettings;
use crate::location::{Direction, Location, NUM_PLATFORMS, NUM_LOCATION_NODES, platforms_below};

verus! {

#[derive(Clone, Copy)]
pub struct Platform {
    location: Location,
    track_location: Location,
    cargo: Cargo,
    is_cargo_in: bool,
    last_brightness: u8,
    phase: u8,
    phase_inc: u8,
}

impl Platform {
    pub closed spec fn loc(self) -> Location {
        self.location
    }

    pub closed spec fn track(self) -> Location {
        self.track_location
    }

    pub closed spec fn held(self) -> Cargo {
        self.cargo
    }

    /// Whether the cargo is coming in (asked for) rather than going out (offered).
    pub closed spec fn incoming(self) -> bool {
        self.is_cargo_in
    }

    pub closed spec fn last_b(self) -> u8 {
        self.last_brightness
    }

    pub closed spec fn phase_value(self) -> u8 {
        self.phase
    }

    pub closed spec fn phase_step(self) -> u8 {
        self.phase_inc
    }

    /// The platform sits at a platform LED and trains stop at the track next to it.
    pub open spec fn wf(self) -> bool {
        &&& self.loc().wf()
        &&& self.loc().is_platform()
        &&& self.track() == self.loc().next_spec(Direction::Anode, false).0
        &&& self.track().wf()
    }

    pub open spec fn empty(self) -> bool {
        self.held() == Cargo::Empty
    }

    /// The platform's display state is unchanged.
    pub open spec fn same_display(self, other: Self) -> bool {
        &&& self.loc() == other.loc()
        &&& self.track() == other.track()
        &&& self.last_b() == other.last_b()
        &&& self.phase_value() == other.phase_value()
    }

    /// Brightness shown at `phase`: outgoing cargo blinks between half and
    /// full platform brightness, incoming cargo between half and dark.
    pub open spec fn shown(self, phase: u8, settings: &GameSettings) -> u8 {
        if self.incoming() {
            self.held().platform_pwm(phase, settings.platform_max() / 2, 0)
        } else {
            self.held().platform_pwm(phase, settings.platform_max() / 2, settings.platform_max())
        }
    }

    fn new(location: Location, track_location: Location) -> (r: Self)
        ensures
            r.loc() == location,
            r.track() == track_location,
            r.held() == Cargo::Empty,
            !r.incoming(),
            r.last_b() == 0,
            r.phase_value() == 0,
            r.phase_step() == 1,
    {
        Self {
            location,
            track_location,
            cargo: Cargo::Empty,
            is_cargo_in: false,
            last_brightness: 0,
            phase: 0,
            phase_inc: 1,
        }
    }

    /// The platforms of the board in LED order, all empty.
    pub fn take() -> (r: Vec<Platform>)
        ensures
            r@.len() == NUM_PLATFORMS,
            forall|k: int| 0 <= k < NUM_PLATFORMS ==> (#[trigger] r@[k]).wf(),
            forall|k: int|
                0 <= k < NUM_PLATFORMS ==> (#[trigger] r@[k]).loc().node_index == platforms_below(
                    NUM_LOCATION_NODES as int,
                )[k],
            forall|k: int| 0 <= k < NUM_PLATFORMS ==> (#[trigger] r@[k]).held() == Cargo::Empty,
            forall|k: int| 0 <= k < NUM_PLATFORMS ==> !(#[trigger] r@[k]).incoming(),
            forall|k: int| 0 <= k < NUM_PLATFORMS ==> (#[trigger] r@[k]).phase_step() == 1,
    {
        let locs = Location::platform_locs();
        proof {
            crate::layout::lemma_platforms_count();
        }
        let mut platforms: Vec<Platform> = Vec::new();
        let mut k: usize = 0;
        while k < locs.len()
            invariant
                locs@.len() == NUM_PLATFORMS,
                platforms_below(NUM_LOCATION_NODES as int).len() == NUM_PLATFORMS,
                forall|j: int|
                    0 <= j < locs@.len() ==> (#[trigger] locs@[j]).node_index == platforms_below(
                        NUM_LOCATION_NODES as int,
                    )[j],
                0 <= k <= locs@.len(),
                platforms@.len() == k,
                forall|j: int| 0 <= j < k ==> (#[trigger] platforms@[j]).wf(),
                forall|j: int| 0 <= j < k ==> (#[trigger] platforms@[j]).loc() == locs@[j],
                forall|j: int| 0 <= j < k ==> (#[trigger] platforms@[j]).held() == Cargo::Empty,
                forall|j: int| 0 <= j < k ==> !(#[trigger] platforms@[j]).incoming(),
                forall|j: int| 0 <= j < k ==> (#[trigger] platforms@[j]).phase_step() == 1,
            decreases locs@.len() - k,
        {
            let location = locs[k];
            proof {
                crate::location::lemma_platforms_below(NUM_LOCATION_NODES as int, k as int);
            }
            let track_location = location.next_loc(Direction::Anode, false);
            platforms.push(Platform::new(location, track_location));
            k += 1;
        }
        platforms
    }

    /// `self` is `o` after `update(settings, force)`, which returned `r`.
    pub open spec fn updated_from(self, o: Self, settings: GameSettings, force: bool, r: (bool, Option<LedUpdate>)) -> bool {
        let phase = ((o.phase_value() + o.phase_step()) % 256) as u8;
        let b = o.shown(phase, &settings);
        let draw = force || b != o.last_b();
        &&& self.phase_value() == phase
        &&& r.0 == draw
        &&& r.1 == if draw { Some(LedUpdate { location: o.loc(), pwm: b }) } else { None }
        &&& self.last_b() == if draw { b } else { o.last_b() }
        &&& self.held() == o.held()
        &&& self.incoming() == o.incoming()
        &&& self.phase_step() == o.phase_step()
        &&& self.loc() == o.loc()
        &&& self.track() == o.track()
    }

    /// One tick of the platform's blinking. Redraws when the brightness
    /// changed or `force_update`; returns whether it did, and the update.
    pub fn update(&mut self, settings: &GameSettings, force_update: bool) -> (r: (bool, Option<LedUpdate>))
        requires
            old(self).wf(),
        ensures
            final(self).wf(),
            ({
                let phase = ((old(self).phase_value() + old(self).phase_step()) % 256) as u8;
                let b = old(self).shown(phase, settings);
                let draw = force_update || b != old(self).last_b();
                &&& final(self).phase_value() == phase
                &&& r.0 == draw
                &&& r.1 == if draw { Some(LedUpdate { location: old(self).loc(), pwm: b }) } else { None }
                &&& final(self).last_b() == if draw { b } else { old(self).last_b() }
                &&& final(self).held() == old(self).held()
                &&& final(self).incoming() == old(self).incoming()
                &&& final(self).phase_step() == old(self).phase_step()
                &&& final(self).loc() == old(self).loc()
                &&& final(self).track() == old(self).track()
            }),
    {
        self.phase = self.phase.wrapping_add(self.phase_inc);
        let pb = settings.platform_brightness();
        proof {
            assert(pb >> 1 == pb / 2) by (bit_vector);
        }
        let brightness = if self.is_cargo_in {
            self.cargo.platform_brightness(self.phase, pb >> 1, 0)
        } else {
            self.cargo.platform_brightness(self.phase, pb >> 1, pb)
        };
        if force_update || brightness != self.last_brightness {
            self.last_brightness = brightness;
            (true, Some(LedUpdate::new(self.location, brightness)))
        } else {
            (false, None)
        }
    }

    pub fn set_phase_speed(&mut self, speed: u8)
        ensures
            final(self).phase_step() == speed,
            final(self).same_display(*old(self)),
            final(self).held() == old(self).held(),
            final(self).incoming() == old(self).incoming(),
    {
        self.phase_inc = speed;
    }

    /// The cargo and whether it is coming in.
    pub fn cargo(&self) -> (r: (Cargo, bool))
        ensures
            r == (self.held(), self.incoming()),
    {
        (self.cargo, self.is_cargo_in)
    }

    pub fn track_location(&self) -> (r: Location)
        ensures
            r == self.track(),
    {
        self.track_location
    }

    pub fn is_empty(&self) -> (r: bool)
        ensures
            r == self.empty(),
    {
        self.cargo == Cargo::Empty
    }

    /// Asks for `cargo` to be delivered here.
    pub fn set_cargo_in(&mut self, cargo: Cargo)
        ensures
            final(self).held() == cargo,
            final(self).incoming(),
            final(self).same_display(*old(self)),
            final(self).phase_step() == old(self).phase_step(),
    {
        self.cargo = cargo;
        self.is_cargo_in = true;
    }

    /// Offers `cargo` for pickup here.
    pub fn set_cargo_out(&mut self, cargo: Cargo)
        ensures
            final(self).held() == cargo,
            !final(self).incoming(),
            final(self).same_display(*old(self)),
            final(self).phase_step() == old(self).phase_step(),
    {
        self.cargo = cargo;
        self.is_cargo_in = false;
    }

    pub fn clear_cargo(&mut self)
        ensures
            final(self).held() == Cargo::Empty,
            final(self).incoming() == old(self).incoming(),
            final(self).same_display(*old(self)),
            final(self).phase_step() == old(self).phase_step(),
    {
        self.cargo = Cargo::Empty;
    }
}

} // verus!
