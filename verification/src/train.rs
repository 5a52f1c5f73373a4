//! Trains: a run of cars led by an engine, moving one location at a time
//! along the track at a speed measured in hundredths of a move per tick.
use vstd::prelude::*;

use crate::cargo::Cargo;
use crate::common::LedUpdate;
use crate::game_settings::GameSettings;
use crate::game_state::MAX_CARS;
use crate::location::{Direction, Location};
use crate::random::Rand;
use crate::switch::Switch;

verus! {

pub const DEFAULT_SPEED: u8 = 10;

pub const MIN_SPEED: u8 = 0;

pub const MAX_SPEED: u8 = 100;

#[derive(Clone, Copy, Debug)]
pub struct Car {
    pub loc: Location,
    pub cargo: Cargo,
    pub last_brightness: u8,
}

impl Default for Car {
    fn default() -> (r: Self)
        ensures
            r.loc.node_index == crate::location::NO_DATA,
            r.cargo == Cargo::Empty,
            r.last_brightness == 0,
    {
        Car { loc: Location::default(), cargo: Cargo::Empty, last_brightness: 0 }
    }
}

/// A car's place and load, as a train reports it.
#[derive(Clone, Copy, Debug)]
pub struct TrainUpdate {
    pub location: Location,
    pub cargo: Cargo,
}

/// A train. Its car storage is split into the cars in use (engine first,
/// caboose last) and the spare cars that follow them; adding a car takes the
/// first spare one and removing the caboose gives it back.
pub struct Train {
    direction: Direction,
    speed: u8,
    speed_counter: u8,
    cars: Vec<Car>,
    spare: Vec<Car>,
    max_cars: u8,
    last_loc: Location,
    phase: u8,
}

/// The brightness update for each car whose brightness changed (for every
/// car when `force`), engine first.
pub open spec fn brightness_updates(cars: Seq<Car>, phase: u8, max: u8, force: bool) -> Seq<LedUpdate>
    decreases cars.len(),
{
    if cars.len() == 0 {
        Seq::empty()
    } else {
        let prev = brightness_updates(cars.drop_last(), phase, max, force);
        let c = cars.last();
        let b = c.cargo.car_pwm(phase, max);
        if force || c.last_brightness != b {
            prev.push(LedUpdate { location: c.loc, pwm: b })
        } else {
            prev
        }
    }
}

/// Cars with their brightness brought up to date.
pub open spec fn refreshed(cars: Seq<Car>, phase: u8, max: u8) -> Seq<Car> {
    Seq::new(
        cars.len(),
        |k: int| Car { last_brightness: cars[k].cargo.car_pwm(phase, max), ..cars[k] },
    )
}

/// Cars after every car but the engine moved to the location of the car ahead.
pub open spec fn shifted(cars: Seq<Car>, engine_loc: Location) -> Seq<Car> {
    Seq::new(
        cars.len(),
        |k: int| if k == 0 { Car { loc: engine_loc, ..cars[0] } } else { Car { loc: cars[k - 1].loc, ..cars[k] } },
    )
}

/// The updates drawn while the cars behind the engine move up, from the
/// caboose forward: each car at the location of the car ahead of it.
pub open spec fn shift_updates(cars: Seq<Car>, phase: u8, max: u8) -> Seq<LedUpdate> {
    Seq::new(
        (cars.len() - 1) as nat,
        |j: int| {
            let i = cars.len() - 1 - j;
            LedUpdate { location: cars[i - 1].loc, pwm: cars[i].cargo.car_pwm(phase, max) }
        },
    )
}

/// Where a car added behind `cars` goes: onward from the caboose, away from
/// the car ahead of it (for a one-car train, in the direction of travel `dir`).
pub open spec fn car_behind(cars: Seq<Car>, dir: Direction) -> Location {
    let n = cars.len();
    let caboose = cars[n - 1].loc;
    let d = if n > 1 {
        if caboose.next_spec(Direction::Anode, false).0 == cars[n - 2].loc {
            Direction::Cathode
        } else {
            Direction::Anode
        }
    } else {
        dir
    };
    caboose.next_spec(d, false).0
}

/// Some switch at `loc` is switched in `direction`.
pub open spec fn switched_at(switches: Seq<Switch>, loc: Location, direction: Direction) -> bool {
    exists|k: int|
        0 <= k < switches.len() && #[trigger] switches[k].loc() == loc && switches[k].switched(
            direction,
        )
}

impl Train {
    pub closed spec fn dir(self) -> Direction {
        self.direction
    }

    pub closed spec fn spd(self) -> u8 {
        self.speed
    }

    pub closed spec fn counter(self) -> u8 {
        self.speed_counter
    }

    /// The cars in use, engine first.
    pub closed spec fn cars_seq(self) -> Seq<Car> {
        self.cars@
    }

    /// The spare cars of the storage, in storage order.
    pub closed spec fn spare_seq(self) -> Seq<Car> {
        self.spare@
    }

    pub closed spec fn cap(self) -> u8 {
        self.max_cars
    }

    pub closed spec fn last(self) -> Location {
        self.last_loc
    }

    pub closed spec fn phase_value(self) -> u8 {
        self.phase
    }

    pub open spec fn storage(self) -> Seq<Car> {
        self.cars_seq() + self.spare_seq()
    }

    /// One to `cap` cars in use, each on the board (the spare cars are not
    /// read until they are taken into use), and the speed bookkeeping within
    /// one move.
    pub open spec fn wf(self) -> bool {
        &&& 1 <= self.cars_seq().len() <= self.cap()
        &&& self.cap() <= self.storage().len() <= MAX_CARS
        &&& forall|k: int| 0 <= k < self.cars_seq().len() ==> (#[trigger] self.cars_seq()[k]).loc.wf()
        &&& self.spd() <= MAX_SPEED
        &&& self.counter() <= MAX_SPEED
        &&& self.last().wf()
    }

    /// Every car of the storage, spare ones included, sits on the board, so
    /// that any of them can be taken into use as it stands.
    pub open spec fn storage_placed(self) -> bool {
        forall|k: int| 0 <= k < self.storage().len() ==> (#[trigger] self.storage()[k]).loc.wf()
    }

    pub open spec fn front_loc(self) -> Location {
        self.cars_seq()[0].loc
    }

    pub open spec fn caboose_car(self) -> Car {
        self.cars_seq().last()
    }

    pub open spec fn occupies(self, loc: Location) -> bool {
        exists|k: int| 0 <= k < self.cars_seq().len() && (#[trigger] self.cars_seq()[k]).loc == loc
    }

    /// `self` is `o` after `add_car(cargo)`: a car carrying `cargo` added
    /// behind the caboose unless the train is at its capacity.
    pub open spec fn car_added_from(self, o: Self, cargo: Cargo) -> bool {
        &&& self.same_motion(o)
        &&& o.cars_seq().len() >= o.cap() ==> {
            &&& self.cars_seq() == o.cars_seq()
            &&& self.spare_seq() == o.spare_seq()
        }
        &&& o.cars_seq().len() < o.cap() ==> {
            &&& self.cars_seq() == o.cars_seq().push(Car { loc: o.new_car_loc(), cargo, ..o.spare_seq()[0] })
            &&& self.spare_seq() == o.spare_seq().drop_first()
        }
    }

    /// `self` is `o` after `remove_car()`: the caboose goes back to the
    /// spare cars unless it is the only car.
    pub open spec fn car_removed_from(self, o: Self) -> bool {
        &&& self.same_motion(o)
        &&& self.storage() == o.storage()
        &&& o.cars_seq().len() <= 1 ==> self.cars_seq() == o.cars_seq()
        &&& o.cars_seq().len() > 1 ==> self.cars_seq() == o.cars_seq().drop_last()
    }

    /// `self` is `o` after replacing the cargo `from` of its first car
    /// holding it by `to`; `r` is whether there was such a car.
    pub open spec fn cargo_replaced_from(self, o: Self, from: Cargo, to: Cargo, r: bool) -> bool {
        &&& self.same_motion(o)
        &&& self.spare_seq() == o.spare_seq()
        &&& r == exists|k: int| 0 <= k < o.cars_seq().len() && #[trigger] o.cars_seq()[k].cargo == from
        &&& r ==> exists|k: int| {
            &&& 0 <= k < o.cars_seq().len()
            &&& #[trigger] o.cars_seq()[k].cargo == from
            &&& forall|j: int| 0 <= j < k ==> #[trigger] o.cars_seq()[j].cargo != from
            &&& self.cars_seq() == o.cars_seq().update(k, Car { cargo: to, ..o.cars_seq()[k] })
        }
        &&& !r ==> self.cars_seq() == o.cars_seq()
    }

    /// `self` is `o` after `advance(settings, switches)`, which returned `r`
    /// (whether the train moved, and the LED updates): the blink phase moves
    /// on and the speed gathers; a full gathering moves the train one step
    /// (taking a fork where the switch at the engine says so), else only the
    /// brightness of its cars is refreshed.
    pub open spec fn advanced_from(self, o: Self, settings: GameSettings, switches: Seq<Switch>, force: bool, r: (bool, Seq<LedUpdate>)) -> bool {
        let phase = ((o.phase_value() + 1) % 256) as u8;
        let max = settings.car_max();
        let gathered = o.counter() + o.spd();
        let engine_loc = o.front_loc();
        let is_switched = switched_at(switches, engine_loc, o.dir());
        let (next_loc, next_dir) = engine_loc.next_spec(o.dir(), is_switched);
        &&& self.phase_value() == phase
        &&& self.spd() == o.spd()
        &&& self.cap() == o.cap()
        &&& self.spare_seq() == o.spare_seq()
        &&& if gathered < MAX_SPEED {
            &&& r.0 == false
            &&& r.1 == brightness_updates(o.cars_seq(), phase, max, force)
            &&& self.cars_seq() == refreshed(o.cars_seq(), phase, max)
            &&& self.counter() == gathered
            &&& self.dir() == o.dir()
            &&& self.last() == o.last()
        } else {
            &&& r.0 == true
            &&& r.1 == seq![LedUpdate { location: o.caboose_car().loc, pwm: 0 }]
                + shift_updates(o.cars_seq(), phase, max)
                + seq![LedUpdate { location: next_loc, pwm: o.cars_seq()[0].cargo.car_pwm(phase, max) }]
            &&& self.cars_seq() == shifted(o.cars_seq(), next_loc)
            &&& self.counter() == gathered - MAX_SPEED
            &&& self.dir() == next_dir
            &&& self.last() == o.caboose_car().loc
        }
    }

    /// `self` is `o` after `set_speed(speed)`.
    pub open spec fn speed_set_from(self, o: Self, speed: u8) -> bool {
        &&& self.spd() == if speed > MAX_SPEED { MAX_SPEED } else { speed }
        &&& self.counter() == 0
        &&& self.cars_seq() == o.cars_seq()
        &&& self.spare_seq() == o.spare_seq()
        &&& self.dir() == o.dir()
        &&& self.cap() == o.cap()
        &&& self.last() == o.last()
        &&& self.phase_value() == o.phase_value()
    }

    /// Speed, counter, direction, capacity, last location and phase agree.
    pub open spec fn same_motion(self, other: Self) -> bool {
        &&& self.dir() == other.dir()
        &&& self.spd() == other.spd()
        &&& self.counter() == other.counter()
        &&& self.cap() == other.cap()
        &&& self.last() == other.last()
        &&& self.phase_value() == other.phase_value()
    }

    /// Where a car added behind the caboose goes: onward from the caboose,
    /// away from the car ahead of it (for a one-car train, in the direction
    /// of travel).
    pub open spec fn new_car_loc(self) -> Location {
        car_behind(self.cars_seq(), self.dir())
    }

    /// A train with one car at `loc`, drawn from the storage `cars`. The
    /// direction comes from one random boolean and the blink phase from one
    /// random byte. The spare cars keep their locations until they are taken
    /// into use; when all of them sit on the board, so does the storage.
    pub fn new(
        cars: Vec<Car>,
        max_cars: u8,
        loc: Location,
        cargo: Cargo,
        speed: Option<u8>,
        rand: &mut Rand,
    ) -> (r: Self)
        requires
            old(rand).wf(),
            loc.wf(),
            1 <= max_cars <= cars@.len() <= MAX_CARS,
            speed matches Some(s) ==> s <= MAX_SPEED,
        ensures
            r.wf(),
            (forall|k: int| 0 <= k < cars@.len() ==> (#[trigger] cars@[k]).loc.wf()) ==> r.storage_placed(),
            final(rand).wf(),
            final(rand).state == old(rand).state.skip(2),
            r.dir() == Direction::Cathode,
            r.spd() == match speed {
                Some(s) => s,
                None => DEFAULT_SPEED,
            },
            r.counter() == 0,
            r.cap() == max_cars,
            r.last() == loc,
            r.phase_value() == old(rand).state.advance().peek(),
            r.cars_seq() == seq![Car { loc, cargo, ..cars@[0] }],
            r.spare_seq() == cars@.drop_first(),
    {
        let direction = if rand.get_bool() {
            Direction::Anode
        } else {
            Direction::Cathode
        };
        let phase = rand.get_u8();
        proof {
            crate::random::lemma_bytes_snoc(old(rand).state, 1);
            assert(old(rand).state.skip(1) == old(rand).state.advance().skip(0));
        }
        let speed = match speed {
            Some(s) => s,
            None => DEFAULT_SPEED,
        };
        let mut spare = cars;
        let first = spare.remove(0);
        let mut in_use: Vec<Car> = Vec::new();
        in_use.push(Car { loc, cargo, ..first });
        let r = Train {
            direction,
            speed,
            speed_counter: 0,
            cars: in_use,
            spare,
            max_cars,
            last_loc: loc,
            phase,
        };
        proof {
            assert(r.cars_seq() =~= seq![Car { loc, cargo, ..cars@[0] }]);
            assert(r.spare_seq() =~= cars@.drop_first());
            if forall|k: int| 0 <= k < cars@.len() ==> (#[trigger] cars@[k]).loc.wf() {
                assert forall|k: int| 0 <= k < r.storage().len() implies (#[trigger] r.storage()[k]).loc.wf() by {
                    if k > 0 {
                        assert(r.storage()[k] == cars@[k]);
                    }
                }
            }
        }
        r
    }

    /// Adds a car behind the caboose, unless the train is at its capacity.
    pub fn add_car(&mut self, cargo: Cargo) -> (r: Option<Location>)
        requires
            old(self).wf(),
        ensures
            final(self).wf(),
            old(self).storage_placed() ==> final(self).storage_placed(),
            final(self).car_added_from(*old(self), cargo),
            final(self).same_motion(*old(self)),
            old(self).cars_seq().len() >= old(self).cap() ==> {
                &&& r is None
                &&& final(self).cars_seq() == old(self).cars_seq()
                &&& final(self).spare_seq() == old(self).spare_seq()
            },
            old(self).cars_seq().len() < old(self).cap() ==> {
                &&& r == Some(old(self).new_car_loc())
                &&& final(self).cars_seq() == old(self).cars_seq().push(
                    Car { loc: old(self).new_car_loc(), cargo, ..old(self).spare_seq()[0] },
                )
                &&& final(self).spare_seq() == old(self).spare_seq().drop_first()
            },
    {
        if self.cars.len() >= self.max_cars as usize {
            return None;
        }
        let n = self.cars.len();
        let caboose_loc = self.cars[n - 1].loc;
        proof {
            assert(self.storage()[n - 1] == self.cars_seq()[n - 1]);
        }
        let inv_caboose_dir = if n > 1 {
            let next_car_loc = self.cars[n - 2].loc;
            if caboose_loc.next(Direction::Anode, false).0 == next_car_loc {
                Direction::Cathode
            } else {
                Direction::Anode
            }
        } else {
            self.direction
        };
        let loc = caboose_loc.next(inv_caboose_dir, false).0;
        proof {
            assert(self.spare_seq().len() > 0);
        }
        let spare_car = self.spare.remove(0);
        self.cars.push(Car { loc, cargo, ..spare_car });
        proof {
            assert(self.spare_seq() =~= old(self).spare_seq().drop_first());
            if old(self).storage_placed() {
                assert forall|k: int| 0 <= k < self.storage().len() implies (#[trigger] self.storage()[k]).loc.wf() by {
                    if k < n {
                        assert(self.storage()[k] == old(self).storage()[k]);
                    } else if k > n {
                        assert(self.storage()[k] == old(self).storage()[k]);
                    }
                }
            }
        }
        Some(loc)
    }

    /// Removes the caboose, unless it is the only car.
    pub fn remove_car(&mut self) -> (r: Option<Location>)
        requires
            old(self).wf(),
        ensures
            final(self).wf(),
            old(self).storage_placed() ==> final(self).storage_placed(),
            final(self).same_motion(*old(self)),
            final(self).storage() == old(self).storage(),
            old(self).cars_seq().len() <= 1 ==> r is None && final(self).cars_seq() == old(
                self,
            ).cars_seq(),
            old(self).cars_seq().len() > 1 ==> {
                &&& r == Some(old(self).caboose_car().loc)
                &&& final(self).cars_seq() == old(self).cars_seq().drop_last()
            },
    {
        if self.cars.len() <= 1 {
            return None;
        }
        let caboose = self.cars.pop().unwrap();
        let loc = caboose.loc;
        self.spare.insert(0, caboose);
        proof {
            assert(self.storage() =~= old(self).storage());
        }
        Some(loc)
    }

    /// Reuses the train with `num_cars` cars of its storage, all carrying
    /// `cargo`, and a new capacity.
    pub fn init_cars(&mut self, cargo: Cargo, num_cars: u8, max_cars: u8)
        requires
            old(self).wf(),
            1 <= num_cars <= max_cars <= old(self).storage().len(),
            forall|k: int| 0 <= k < num_cars ==> (#[trigger] old(self).storage()[k]).loc.wf(),
        ensures
            final(self).wf(),
            old(self).storage_placed() ==> final(self).storage_placed(),
            final(self).cap() == max_cars,
            final(self).cars_seq().len() == num_cars,
            final(self).storage().len() == old(self).storage().len(),
            forall|k: int|
                0 <= k < num_cars ==> #[trigger] final(self).cars_seq()[k] == (Car {
                    cargo,
                    last_brightness: 0,
                    ..old(self).storage()[k]
                }),
            forall|k: int|
                num_cars <= k < final(self).storage().len() ==> #[trigger] final(self).storage()[k]
                    == old(self).storage()[k],
            final(self).dir() == old(self).dir(),
            final(self).spd() == old(self).spd(),
            final(self).counter() == old(self).counter(),
            final(self).last() == old(self).last(),
            final(self).phase_value() == old(self).phase_value(),
    {
        while self.cars.len() > num_cars as usize
            invariant
                self.storage() == old(self).storage(),
                self.cars_seq().len() <= old(self).storage().len(),
                self.cap() == old(self).cap(),
                self.dir() == old(self).dir(),
                self.spd() == old(self).spd(),
                self.counter() == old(self).counter(),
                self.last() == old(self).last(),
                self.phase_value() == old(self).phase_value(),
            decreases self.cars_seq().len(),
        {
            let car = self.cars.pop().unwrap();
            self.spare.insert(0, car);
            proof {
                assert(self.storage() =~= old(self).storage());
            }
        }
        while self.cars.len() < num_cars as usize
            invariant
                self.storage() == old(self).storage(),
                self.cars_seq().len() <= num_cars,
                num_cars <= old(self).storage().len(),
                self.cap() == old(self).cap(),
                self.dir() == old(self).dir(),
                self.spd() == old(self).spd(),
                self.counter() == old(self).counter(),
                self.last() == old(self).last(),
                self.phase_value() == old(self).phase_value(),
            decreases num_cars - self.cars_seq().len(),
        {
            let car = self.spare.remove(0);
            self.cars.push(car);
            proof {
                assert(self.storage() =~= old(self).storage());
            }
        }
        self.max_cars = max_cars;
        let n = self.cars.len();
        let mut i: usize = 0;
        while i < n
            invariant
                n == num_cars == self.cars_seq().len(),
                self.cap() == max_cars,
                self.dir() == old(self).dir(),
                self.spd() == old(self).spd(),
                self.counter() == old(self).counter(),
                self.last() == old(self).last(),
                self.phase_value() == old(self).phase_value(),
                self.storage().len() == old(self).storage().len(),
                self.spare_seq() == old(self).storage().subrange(num_cars as int, old(self).storage().len() as int),
                forall|k: int|
                    0 <= k < i ==> #[trigger] self.cars_seq()[k] == (Car {
                        cargo,
                        last_brightness: 0,
                        ..old(self).storage()[k]
                    }),
                forall|k: int| i <= k < n ==> #[trigger] self.cars_seq()[k] == old(self).storage()[k],
            decreases n - i,
        {
            let car = self.cars[i];
            self.cars.set(i, Car { cargo, last_brightness: 0, ..car });
            i += 1;
        }
        proof {
            if old(self).storage_placed() {
                assert forall|k: int| 0 <= k < self.storage().len() implies (#[trigger] self.storage()[k]).loc.wf() by {
                    if k < n {
                        assert(self.storage()[k] == self.cars_seq()[k]);
                        assert(old(self).storage()[k].loc.wf());
                    } else {
                        assert(self.storage()[k] == old(self).storage()[k]);
                        assert(old(self).storage()[k].loc.wf());
                    }
                }
            }
        }
    }

    /// One game tick. The train gathers `speed` hundredths of a move; while it
    /// has not gathered a whole move it only redraws the cars whose
    /// brightness changed (all of them when `force`). Otherwise every car
    /// moves up to the location of the car ahead, the engine moves on along the track (taking the fork
    /// when a switch at its location is switched in its direction), and the
    /// vacated location is darkened. Returns whether the train moved, and the
    /// LED updates in the order they are drawn.
    pub fn advance(&mut self, settings: &GameSettings, switches: &Vec<Switch>, force: bool) -> (r: (bool, Vec<LedUpdate>))
        requires
            old(self).wf(),
        ensures
            final(self).wf(),
            old(self).storage_placed() ==> final(self).storage_placed(),
            ({
                let o = *old(self);
                let phase = ((o.phase_value() + 1) % 256) as u8;
                let max = settings.car_max();
                let gathered = o.counter() + o.spd();
                let engine_loc = o.front_loc();
                let is_switched = switched_at(switches@, engine_loc, o.dir());
                let (next_loc, next_dir) = engine_loc.next_spec(o.dir(), is_switched);
                &&& final(self).phase_value() == phase
                &&& final(self).spd() == o.spd()
                &&& final(self).cap() == o.cap()
                &&& final(self).spare_seq() == o.spare_seq()
                &&& if gathered < MAX_SPEED {
                    &&& r.0 == false
                    &&& r.1@ == brightness_updates(o.cars_seq(), phase, max, force)
                    &&& final(self).cars_seq() == refreshed(o.cars_seq(), phase, max)
                    &&& final(self).counter() == gathered
                    &&& final(self).dir() == o.dir()
                    &&& final(self).last() == o.last()
                } else {
                    &&& r.0 == true
                    &&& r.1@ == seq![LedUpdate { location: o.caboose_car().loc, pwm: 0 }]
                        + shift_updates(o.cars_seq(), phase, max)
                        + seq![LedUpdate { location: next_loc, pwm: o.cars_seq()[0].cargo.car_pwm(phase, max) }]
                    &&& final(self).cars_seq() == shifted(o.cars_seq(), next_loc)
                    &&& final(self).counter() == gathered - MAX_SPEED
                    &&& final(self).dir() == next_dir
                    &&& final(self).last() == o.caboose_car().loc
                }
            }),
    {
        let max = settings.car_brightness();
        self.phase = self.phase.wrapping_add(1);
        let phase = self.phase;
        self.speed_counter = self.speed_counter + self.speed;
        let n = self.cars.len();
        let mut updates: Vec<LedUpdate> = Vec::new();

        if self.speed_counter < MAX_SPEED {
            let mut i: usize = 0;
            while i < n
                invariant
                    n == self.cars_seq().len() == old(self).cars_seq().len(),
                    0 <= i <= n,
                    updates@ == brightness_updates(old(self).cars_seq().take(i as int), phase, max, force),
                    forall|k: int| 0 <= k < i ==> #[trigger] self.cars_seq()[k] == refreshed(old(self).cars_seq(), phase, max)[k],
                    forall|k: int| i <= k < n ==> #[trigger] self.cars_seq()[k] == old(self).cars_seq()[k],
                    self.phase == phase,
                    self.speed_counter == old(self).counter() + old(self).spd(),
                    self.speed == old(self).spd(),
                    self.max_cars == old(self).cap(),
                    self.direction == old(self).dir(),
                    self.last_loc == old(self).last(),
                    self.spare@ == old(self).spare_seq(),
                decreases n - i,
            {
                let car = self.cars[i];
                let brightness = car.cargo.car_brightness(phase, max);
                proof {
                    assert(old(self).cars_seq().take(i + 1).drop_last() =~= old(self).cars_seq().take(i as int));
                }
                if force || car.last_brightness != brightness {
                    self.cars.set(i, Car { last_brightness: brightness, ..car });
                    updates.push(LedUpdate::new(car.loc, brightness));
                } else {
                    self.cars.set(i, Car { last_brightness: brightness, ..car });
                }
                i += 1;
            }
            proof {
                assert(old(self).cars_seq().take(n as int) =~= old(self).cars_seq());
                assert(self.cars_seq() =~= refreshed(old(self).cars_seq(), phase, max));
                assert(self.storage() =~= old(self).storage().update(0, self.storage()[0])
                    || true);
                if old(self).storage_placed() {
                    assert forall|k: int| 0 <= k < self.storage().len() implies (#[trigger] self.storage()[k]).loc.wf() by {
                        if k < n {
                            assert(self.storage()[k] == self.cars_seq()[k]);
                            assert(old(self).storage()[k] == old(self).cars_seq()[k]);
                        } else {
                            assert(self.storage()[k] == old(self).storage()[k]);
                        }
                    }
                }
            }
            return (false, updates);
        }

        self.speed_counter = self.speed_counter - MAX_SPEED;
        let caboose_loc = self.cars[n - 1].loc;
        self.last_loc = caboose_loc;
        updates.push(LedUpdate::new(caboose_loc, 0));
        proof {
            assert(old(self).storage()[n - 1] == old(self).cars_seq()[n - 1]);
        }

        // move the cars from the rear forward
        let mut i: usize = n - 1;
        while i >= 1
            invariant
                n == self.cars_seq().len() == old(self).cars_seq().len(),
                n >= 1,
                0 <= i <= n - 1,
                updates@ == seq![LedUpdate { location: caboose_loc, pwm: 0 }]
                    + shift_updates(old(self).cars_seq(), phase, max).take((n - 1 - i) as int),
                forall|k: int| 0 <= k <= i ==> #[trigger] self.cars_seq()[k] == old(self).cars_seq()[k],
                forall|k: int| i < k < n ==> #[trigger] self.cars_seq()[k] == shifted(old(self).cars_seq(), old(self).front_loc())[k],
                self.spare@ == old(self).spare_seq(),
                self.phase == phase,
                self.speed_counter == old(self).counter() + old(self).spd() - MAX_SPEED,
                self.speed == old(self).spd(),
                self.max_cars == old(self).cap(),
                self.direction == old(self).dir(),
                self.last_loc == caboose_loc,
                caboose_loc == old(self).caboose_car().loc,
            decreases i,
        {
            let ahead = self.cars[i - 1].loc;
            let car = self.cars[i];
            let brightness = car.cargo.car_brightness(phase, max);
            self.cars.set(i, Car { loc: ahead, ..car });
            updates.push(LedUpdate::new(ahead, brightness));
            proof {
                assert(shift_updates(old(self).cars_seq(), phase, max).take((n - 1 - i + 1) as int)
                    =~= shift_updates(old(self).cars_seq(), phase, max).take((n - 1 - i) as int).push(
                    LedUpdate { location: ahead, pwm: brightness }));
            }
            i = i - 1;
        }

        // the engine follows the track, taking the fork where a switch says so
        let front_loc = self.cars[0].loc;
        proof {
            assert(old(self).storage()[0] == old(self).cars_seq()[0]);
        }
        let mut is_switched = false;
        let mut k: usize = 0;
        while k < switches.len()
            invariant
                0 <= k <= switches@.len(),
                is_switched == exists|j: int|
                    0 <= j < k && #[trigger] switches@[j].loc() == front_loc && switches@[j].switched(
                        self.direction,
                    ),
                self.direction == old(self).dir(),
            decreases switches@.len() - k,
        {
            if front_loc == switches[k].location() && switches[k].is_switched(self.direction) {
                is_switched = true;
            }
            k += 1;
        }
        let (next_loc, new_dir) = front_loc.next(self.direction, is_switched);
        self.direction = new_dir;
        let engine = self.cars[0];
        self.cars.set(0, Car { loc: next_loc, ..engine });
        let brightness = engine.cargo.car_brightness(phase, max);
        updates.push(LedUpdate::new(next_loc, brightness));
        proof {
            assert(shift_updates(old(self).cars_seq(), phase, max).take((n - 1) as int)
                =~= shift_updates(old(self).cars_seq(), phase, max));
            assert(self.cars_seq() =~= shifted(old(self).cars_seq(), next_loc));
            if old(self).storage_placed() {
                assert forall|k: int| 0 <= k < self.storage().len() implies (#[trigger] self.storage()[k]).loc.wf() by {
                    if k == 0 {
                    } else if k < n {
                        assert(self.storage()[k] == self.cars_seq()[k]);
                        assert(old(self).storage()[k - 1] == old(self).cars_seq()[k - 1]);
                    } else {
                        assert(self.storage()[k] == old(self).storage()[k]);
                    }
                }
            }
        }
        (true, updates)
    }

    /// The cars in use, engine first.
    pub fn cars(&self) -> (r: &[Car])
        ensures
            r@ == self.cars_seq(),
    {
        self.cars.as_slice()
    }

    /// The number of cars in use.
    pub fn len(&self) -> (r: usize)
        requires
            self.wf(),
        ensures
            r == self.cars_seq().len(),
            1 <= r <= MAX_CARS,
    {
        self.cars.len()
    }

    pub fn speed(&self) -> (r: u8)
        ensures
            r == self.spd(),
    {
        self.speed
    }

    pub fn direction(&self) -> (r: Direction)
        ensures
            r == self.dir(),
    {
        self.direction
    }

    /// Sets the speed, clamped to `MIN_SPEED..=MAX_SPEED`, and restarts the
    /// gathering of the next move.
    pub fn set_speed(&mut self, speed: u8)
        requires
            old(self).wf(),
        ensures
            final(self).wf(),
            old(self).storage_placed() ==> final(self).storage_placed(),
            final(self).speed_set_from(*old(self), speed),
    {
        self.speed = if speed > MAX_SPEED { MAX_SPEED } else if speed < MIN_SPEED { MIN_SPEED } else { speed };
        self.speed_counter = 0;
    }

    /// Makes the train move on its next tick.
    pub fn force_advance_next_tick(&mut self)
        requires
            old(self).wf(),
        ensures
            final(self).wf(),
            old(self).storage_placed() ==> final(self).storage_placed(),
            final(self).counter() == MAX_SPEED,
            final(self).spd() == old(self).spd(),
            final(self).cars_seq() == old(self).cars_seq(),
            final(self).spare_seq() == old(self).spare_seq(),
            final(self).dir() == old(self).dir(),
            final(self).cap() == old(self).cap(),
            final(self).last() == old(self).last(),
            final(self).phase_value() == old(self).phase_value(),
    {
        self.speed_counter = MAX_SPEED;
    }

    /// Puts `cargo` into the first empty car; returns whether there was one.
    pub fn load_cargo(&mut self, cargo: Cargo) -> (r: bool)
        requires
            old(self).wf(),
        ensures
            final(self).wf(),
            old(self).storage_placed() ==> final(self).storage_placed(),
            final(self).cargo_replaced_from(*old(self), Cargo::Empty, cargo, r),
            final(self).same_motion(*old(self)),
            final(self).spare_seq() == old(self).spare_seq(),
            r == exists|k: int| 0 <= k < old(self).cars_seq().len() && #[trigger] old(self).cars_seq()[k].cargo == Cargo::Empty,
            r ==> exists|k: int| {
                &&& 0 <= k < old(self).cars_seq().len()
                &&& #[trigger] old(self).cars_seq()[k].cargo == Cargo::Empty
                &&& forall|j: int| 0 <= j < k ==> #[trigger] old(self).cars_seq()[j].cargo != Cargo::Empty
                &&& final(self).cars_seq() == old(self).cars_seq().update(k, Car { cargo, ..old(self).cars_seq()[k] })
            },
            !r ==> final(self).cars_seq() == old(self).cars_seq(),
    {
        self.replace_first_cargo(Cargo::Empty, cargo)
    }

    /// Empties the first car holding `cargo`; returns whether there was one.
    pub fn unload_cargo(&mut self, cargo: Cargo) -> (r: bool)
        requires
            old(self).wf(),
        ensures
            final(self).wf(),
            old(self).storage_placed() ==> final(self).storage_placed(),
            final(self).cargo_replaced_from(*old(self), cargo, Cargo::Empty, r),
            final(self).same_motion(*old(self)),
            final(self).spare_seq() == old(self).spare_seq(),
            r == exists|k: int| 0 <= k < old(self).cars_seq().len() && #[trigger] old(self).cars_seq()[k].cargo == cargo,
            r ==> exists|k: int| {
                &&& 0 <= k < old(self).cars_seq().len()
                &&& #[trigger] old(self).cars_seq()[k].cargo == cargo
                &&& forall|j: int| 0 <= j < k ==> #[trigger] old(self).cars_seq()[j].cargo != cargo
                &&& final(self).cars_seq() == old(self).cars_seq().update(k, Car { cargo: Cargo::Empty, ..old(self).cars_seq()[k] })
            },
            !r ==> final(self).cars_seq() == old(self).cars_seq(),
    {
        self.replace_first_cargo(cargo, Cargo::Empty)
    }

    /// Replaces the cargo of the first car holding `from` by `to`.
    fn replace_first_cargo(&mut self, from: Cargo, to: Cargo) -> (r: bool)
        requires
            old(self).wf(),
        ensures
            final(self).wf(),
            old(self).storage_placed() ==> final(self).storage_placed(),
            final(self).same_motion(*old(self)),
            final(self).spare_seq() == old(self).spare_seq(),
            r == exists|k: int| 0 <= k < old(self).cars_seq().len() && #[trigger] old(self).cars_seq()[k].cargo == from,
            r ==> exists|k: int| {
                &&& 0 <= k < old(self).cars_seq().len()
                &&& #[trigger] old(self).cars_seq()[k].cargo == from
                &&& forall|j: int| 0 <= j < k ==> #[trigger] old(self).cars_seq()[j].cargo != from
                &&& final(self).cars_seq() == old(self).cars_seq().update(k, Car { cargo: to, ..old(self).cars_seq()[k] })
            },
            !r ==> final(self).cars_seq() == old(self).cars_seq(),
    {
        let n = self.cars.len();
        let mut i: usize = 0;
        while i < n
            invariant
                n == self.cars@.len(),
                0 <= i <= n,
                old(self).wf(),
                self.cars@ == old(self).cars_seq(),
                self.spare@ == old(self).spare_seq(),
                self.same_motion(*old(self)),
                forall|j: int| 0 <= j < i ==> #[trigger] old(self).cars_seq()[j].cargo != from,
            decreases n - i,
        {
            let car = self.cars[i];
            if car.cargo == from {
                self.cars.set(i, Car { cargo: to, ..car });
                proof {
                    assert(self.storage()[i as int].loc == old(self).storage()[i as int].loc);
                    if old(self).storage_placed() {
                        assert forall|k: int| 0 <= k < self.storage().len() implies (#[trigger] self.storage()[k]).loc.wf() by {
                            if k < n {
                                assert(self.storage()[k] == self.cars_seq()[k]);
                                assert(old(self).storage()[k] == old(self).cars_seq()[k]);
                            } else {
                                assert(self.storage()[k] == old(self).storage()[k]);
                            }
                        }
                    }
                    assert(self.cars_seq() =~= old(self).cars_seq().update(i as int, Car { cargo: to, ..old(self).cars_seq()[i as int] }));
                }
                return true;
            }
            i += 1;
        }
        false
    }

    /// The engine, the first car.
    pub fn engine(&self) -> (r: &Car)
        requires
            self.wf(),
        ensures
            *r == self.cars_seq()[0],
    {
        &self.cars[0]
    }

    /// The location of the engine.
    pub fn front(&self) -> (r: Location)
        requires
            self.wf(),
        ensures
            r == self.front_loc(),
            r.wf(),
    {
        proof {
            assert(self.storage()[0] == self.cars_seq()[0]);
        }
        self.cars[0].loc
    }

    /// The caboose, the last car.
    pub fn caboose(&self) -> (r: &Car)
        requires
            self.wf(),
        ensures
            *r == self.caboose_car(),
    {
        &self.cars[self.cars.len() - 1]
    }

    /// Where the caboose was before the last move.
    pub fn last_loc(&self) -> (r: Location)
        ensures
            r == self.last(),
    {
        self.last_loc
    }

    /// Whether any car is at `loc`.
    pub fn at_location(&self, loc: Location) -> (r: bool)
        ensures
            r == self.occupies(loc),
    {
        let n = self.cars.len();
        let mut i: usize = 0;
        while i < n
            invariant
                n == self.cars_seq().len(),
                0 <= i <= n,
                forall|j: int| 0 <= j < i ==> (#[trigger] self.cars_seq()[j]).loc != loc,
            decreases n - i,
        {
            if self.cars[i].loc == loc {
                return true;
            }
            i += 1;
        }
        false
    }
}

/// A tick of a train never changes its number of cars, its capacity or its
/// car storage; a move takes the engine one step along the track and every
/// other car to where the car ahead of it was.
pub proof fn lemma_advance_keeps_train(t: Train, o: Train, settings: GameSettings, switches: Seq<Switch>, force: bool, r: (bool, Seq<LedUpdate>))
    requires
        o.wf(),
        t.advanced_from(o, settings, switches, force, r),
    ensures
        t.cars_seq().len() == o.cars_seq().len(),
        t.cap() == o.cap(),
        t.storage().len() == o.storage().len(),
        r.0 ==> forall|k: int| 1 <= k < o.cars_seq().len() ==> #[trigger] t.cars_seq()[k].loc == o.cars_seq()[k - 1].loc,
        r.0 ==> t.front_loc() == o.front_loc().next_spec(o.dir(), switched_at(switches, o.front_loc(), o.dir())).0,
{
}

/// Adding a car and then removing the caboose gives back the train's cars
/// and motion, when the train had room for the car.
pub proof fn lemma_add_then_remove_car(t0: Train, t1: Train, t2: Train, cargo: Cargo)
    requires
        t1.car_added_from(t0, cargo),
        t2.car_removed_from(t1),
        1 <= t0.cars_seq().len() < t0.cap(),
    ensures
        t2.cars_seq() == t0.cars_seq(),
        t2.same_motion(t0),
{
    assert(t1.cars_seq().drop_last() =~= t0.cars_seq());
}

/// The speed bookkeeping of one tick: the speed stays, the counter gathers
/// the speed, and a whole move (`MAX_SPEED` gathered) is spent on moving.
pub open spec fn speed_step(t: Train, o: Train, moved: bool) -> bool {
    &&& t.spd() == o.spd()
    &&& o.counter() + o.spd() < MAX_SPEED ==> !moved && t.counter() == o.counter() + o.spd()
    &&& o.counter() + o.spd() >= MAX_SPEED ==> moved && t.counter() == o.counter() + o.spd() - MAX_SPEED
}

/// The number of ticks among the first `n` in which the train moved.
pub open spec fn moves_in(moved: Seq<bool>, n: int) -> int
    decreases n,
{
    if n <= 0 {
        0
    } else {
        moves_in(moved, n - 1) + if moved[n - 1] { 1int } else { 0int }
    }
}

/// A tick keeps the speed bookkeeping of `speed_step`.
pub proof fn lemma_advance_speed_step(t: Train, o: Train, settings: GameSettings, switches: Seq<Switch>, force: bool, r: (bool, Seq<LedUpdate>))
    requires
        t.advanced_from(o, settings, switches, force, r),
    ensures
        speed_step(t, o, r.0),
{
}

/// After the speed was set to `s` (the counter at zero), `k` ticks move the
/// train exactly `k * s / 100` times, and the counter holds the rest,
/// `k * s % 100`: speed 0 never moves, speed 100 moves on every tick.
pub proof fn lemma_speed_moves(ts: Seq<Train>, moved: Seq<bool>, k: int)
    requires
        0 <= k,
        ts.len() == k + 1,
        moved.len() == k,
        ts[0].counter() == 0,
        ts[0].spd() <= MAX_SPEED,
        forall|i: int| 0 <= i < k ==> #[trigger] speed_step(ts[i + 1], ts[i], moved[i]),
    ensures
        moves_in(moved, k) == k * ts[0].spd() / 100,
        ts[k].counter() == k * ts[0].spd() % 100,
        ts[k].spd() == ts[0].spd(),
    decreases k,
{
    let s = ts[0].spd() as int;
    if k == 0 {
        assert(0 * s == 0) by (nonlinear_arith);
    } else {
        lemma_speed_moves(ts.take(k), moved.take(k - 1), k - 1);
        assert forall|i: int| 0 <= i < k - 1 implies moves_in(moved.take(k - 1), i) == moves_in(moved, i) by {
            lemma_moves_in_prefix(moved, k - 1, i);
        }
        assert(moves_in(moved.take(k - 1), k - 1) == moves_in(moved, k - 1)) by {
            lemma_moves_in_prefix(moved, k - 1, k - 1);
        }
        assert(speed_step(ts[k], ts[k - 1], moved[k - 1]));
        let a = (k - 1) * s;
        let q = a / 100;
        let c = a % 100;
        assert(a == q * 100 + c && 0 <= c < 100) by (nonlinear_arith)
            requires
                a >= 0,
                q == a / 100,
                c == a % 100,
        ;
        assert(k * s == a + s) by (nonlinear_arith)
            requires
                a == (k - 1) * s,
        ;
        if c + s < 100 {
            vstd::arithmetic::div_mod::lemma_fundamental_div_mod_converse(a + s, 100, q, c + s);
        } else {
            vstd::arithmetic::div_mod::lemma_fundamental_div_mod_converse(a + s, 100, q + 1, c + s - 100);
        }
    }
}

/// Counting the moves of a prefix of the ticks counts them in the whole run.
proof fn lemma_moves_in_prefix(moved: Seq<bool>, m: int, i: int)
    requires
        0 <= i <= m <= moved.len(),
    ensures
        moves_in(moved.take(m), i) == moves_in(moved, i),
    decreases i,
{
    if i > 0 {
        lemma_moves_in_prefix(moved, m, i - 1);
    }
}

/// A car added behind a train of two or more cars on the track goes to the
/// caboose's other neighbor, never back onto the car ahead of the caboose.
pub proof fn lemma_car_behind_away(cars: Seq<Car>, dir: Direction)
    requires
        cars.len() >= 2,
        cars.last().loc.wf(),
        !cars.last().loc.is_platform(),
    ensures
        car_behind(cars, dir) != cars[cars.len() - 2].loc,
{
    crate::layout::lemma_track_neighbors_distinct(cars.last().loc.node_index as int);
}

} // verus!
