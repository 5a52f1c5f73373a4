//! Driver of the IS31FL3731 LED matrix controller: each operation is a
//! sequence of I2C writes (select a register bank, then write registers).
//! The writes of each operation are given by a verified plan; the bus itself
//! is whatever implements `I2cBus`.
use vstd::prelude::*;

pub mod addresses;
pub mod constants;

use addresses::{
    AUDIOSYNC, BANK_ADDRESS, COLOR_OFFSET, CONFIG_BANK, ENABLE_OFFSET, FRAME, MODE_REGISTER,
    PICTURE_MODE, SHUTDOWN,
};
use constants::{MAX_FRAMES, MAX_LEDS, MAX_ROWS};

verus! {

/// An I2C bus that can write bytes to a device.
pub trait I2cBus {
    type Error;

    fn write(&mut self, address: u8, bytes: &[u8]) -> Result<(), Self::Error>;
}

/// A way to wait.
pub trait DelayMs {
    fn delay_ms(&mut self, ms: u32);
}

/// Why an operation failed.
#[derive(Clone, Copy, Debug)]
pub enum Error<E> {
    I2cError(E),
    InvalidLocation(u8),
    InvalidFrame(u8),
}

impl<E> From<E> for Error<E> {
    /// A bus error.
    fn from(error: E) -> (r: Self) {
        Error::I2cError(error)
    }
}

impl<E> vstd::std_specs::convert::FromSpecImpl<E> for Error<E> {
    open spec fn obeys_from_spec() -> bool {
        true
    }

    open spec fn from_spec(v: E) -> Self {
        Error::I2cError(v)
    }
}

pub struct IS31FL3731<I2C> {
    pub i2c: I2C,
    pub address: u8,
    frame: u8,
    /// Every write handed to the bus so far, in order: the device address
    /// and the bytes.
    sent: Ghost<Seq<(u8, Seq<u8>)>>,
}

/// The writes of `plan`, each to device address `address`.
pub open spec fn to_device(address: u8, plan: Seq<Seq<u8>>) -> Seq<(u8, Seq<u8>)> {
    plan.map_values(|w: Seq<u8>| (address, w))
}

/// Log `sent` is `before` followed by the writes of `plan` to `address`: all
/// of them when the operation succeeded, else those up to and including the
/// one that failed.
pub open spec fn sent_plan(sent: Seq<(u8, Seq<u8>)>, before: Seq<(u8, Seq<u8>)>, address: u8, plan: Seq<Seq<u8>>, ok: bool) -> bool {
    if ok {
        sent == before + to_device(address, plan)
    } else {
        &&& before.len() < sent.len() <= before.len() + plan.len()
        &&& sent == before + to_device(address, plan.take(sent.len() - before.len()))
    }
}

/// The write that selects register bank `bank`.
pub open spec fn bank_select(bank: u8) -> Seq<u8> {
    seq![BANK_ADDRESS, bank]
}

/// The writes that set `register` of `bank` to `value`.
pub open spec fn register_writes(bank: u8, register: u8, value: u8) -> Seq<Seq<u8>> {
    seq![bank_select(bank), seq![register, value]]
}

/// The write that zeroes the 24 brightness registers of row `row`.
pub open spec fn clear_row(row: int) -> Seq<u8> {
    seq![(COLOR_OFFSET + row * 24) as u8] + Seq::new(24, |i: int| 0u8)
}

/// The writes that zero the brightness registers of `frame`, row by row.
pub open spec fn clear_writes(frame: u8) -> Seq<Seq<u8>> {
    seq![bank_select(frame)] + Seq::new((MAX_ROWS - 1) as nat, |row: int| clear_row(row))
}

/// The writes that turn on the 18 LED-enable registers of `frame`.
pub open spec fn enable_writes(frame: u8, n: int) -> Seq<Seq<u8>>
    decreases n,
{
    if n <= 0 {
        Seq::empty()
    } else {
        enable_writes(frame, n - 1) + register_writes(frame, (ENABLE_OFFSET + n - 1) as u8, 0xFF)
    }
}

/// The writes that clear and enable the first `n` frames.
pub open spec fn frames_setup_writes(n: int) -> Seq<Seq<u8>>
    decreases n,
{
    if n <= 0 {
        Seq::empty()
    } else {
        frames_setup_writes(n - 1) + clear_writes((n - 1) as u8) + enable_writes((n - 1) as u8, 18)
    }
}

/// The writes of `begin` after the first sleep: picture mode, frame `frame`
/// shown, every frame cleared with all LEDs enabled, audio sync off, and
/// awake.
pub open spec fn begin_writes(frame: u8) -> Seq<Seq<u8>> {
    register_writes(CONFIG_BANK, MODE_REGISTER, PICTURE_MODE) + register_writes(CONFIG_BANK, FRAME, frame)
        + frames_setup_writes(MAX_FRAMES as int) + register_writes(CONFIG_BANK, AUDIOSYNC, 0)
        + register_writes(CONFIG_BANK, SHUTDOWN, 1)
}

/// The views of a list of writes.
pub open spec fn views(ws: Seq<Vec<u8>>) -> Seq<Seq<u8>> {
    ws.map_values(|w: Vec<u8>| w@)
}

impl<I2C> IS31FL3731<I2C> {
    /// The frame shown and written to.
    pub closed spec fn current_frame(&self) -> u8 {
        self.frame
    }

    /// The bus the controller sits on.
    pub closed spec fn bus(&self) -> I2C {
        self.i2c
    }

    /// The controller's bus address.
    pub closed spec fn addr(&self) -> u8 {
        self.address
    }

    /// Every write handed to the bus so far, in order: the device address
    /// and the bytes.
    pub closed spec fn sent(&self) -> Seq<(u8, Seq<u8>)> {
        self.sent@
    }

    /// A driver at the default address 0x74, on frame 0.
    pub fn new(i2c: I2C) -> (r: Self)
        ensures
            r.bus() == i2c,
            r.addr() == 0x74,
            r.current_frame() == 0,
            r.sent() == Seq::<(u8, Seq<u8>)>::empty(),
    {
        IS31FL3731 { i2c, address: 0x74, frame: 0, sent: Ghost(Seq::empty()) }
    }

    /// Gives the bus back.
    pub fn destroy(self) -> (r: I2C)
        ensures
            r == self.bus(),
    {
        self.i2c
    }

    /// The writes that set `register` of `bank` to `value`.
    pub fn register_plan(bank: u8, register: u8, value: u8) -> (r: Vec<Vec<u8>>)
        ensures
            views(r@) == register_writes(bank, register, value),
    {
        let mut plan: Vec<Vec<u8>> = Vec::new();
        plan.push(vec![BANK_ADDRESS, bank]);
        plan.push(vec![register, value]);
        proof {
            assert(views(plan@) =~= register_writes(bank, register, value));
        }
        plan
    }

    /// The writes that zero the brightness registers of `frame`.
    pub fn clear_plan(frame: u8) -> (r: Vec<Vec<u8>>)
        ensures
            views(r@) == clear_writes(frame),
    {
        let mut plan: Vec<Vec<u8>> = Vec::new();
        plan.push(vec![BANK_ADDRESS, frame]);
        let mut row: u8 = 0;
        while row < MAX_ROWS - 1
            invariant
                0 <= row <= MAX_ROWS - 1,
                views(plan@) == seq![bank_select(frame)] + Seq::new(row as nat, |r: int| clear_row(r)),
            decreases MAX_ROWS - 1 - row,
        {
            let mut payload: Vec<u8> = Vec::new();
            payload.push(COLOR_OFFSET + row * 24);
            let mut i: usize = 0;
            while i < 24
                invariant
                    0 <= i <= 24,
                    payload@ == seq![(COLOR_OFFSET + row * 24) as u8] + Seq::new(i as nat, |k: int| 0u8),
                decreases 24 - i,
            {
                payload.push(0);
                proof {
                    assert(payload@ =~= seq![(COLOR_OFFSET + row * 24) as u8] + Seq::new((i + 1) as nat, |k: int| 0u8));
                }
                i += 1;
            }
            let ghost before = plan@;
            plan.push(payload);
            proof {
                assert(views(plan@) =~= views(before).push(clear_row(row as int)));
                assert(views(plan@) =~= seq![bank_select(frame)] + Seq::new((row + 1) as nat, |r: int| clear_row(r)));
            }
            row += 1;
        }
        plan
    }

    /// The writes of `begin` after the first sleep: picture mode, frame
    /// `frame` shown, every frame cleared with all LEDs enabled, audio sync
    /// off, and awake.
    pub fn begin_plan(frame: u8) -> (r: Vec<Vec<u8>>)
        ensures
            views(r@) == begin_writes(frame),
    {
        let mut plan = Self::register_plan(CONFIG_BANK, MODE_REGISTER, PICTURE_MODE);
        let mut more = Self::register_plan(CONFIG_BANK, FRAME, frame);
        Self::append_plan(&mut plan, &mut more);
        let ghost head = views(plan@);
        let mut f: u8 = 0;
        while f < MAX_FRAMES
            invariant
                0 <= f <= MAX_FRAMES,
                views(plan@) == head + frames_setup_writes(f as int),
            decreases MAX_FRAMES - f,
        {
            let mut cleared = Self::clear_plan(f);
            Self::append_plan(&mut plan, &mut cleared);
            let mut col: u8 = 0;
            while col < 18
                invariant
                    0 <= col <= 18,
                    f < MAX_FRAMES,
                    views(plan@) == head + frames_setup_writes(f as int) + clear_writes(f) + enable_writes(f, col as int),
                decreases 18 - col,
            {
                let mut enable = Self::register_plan(f, ENABLE_OFFSET + col, 0xFF);
                Self::append_plan(&mut plan, &mut enable);
                col += 1;
            }
            f += 1;
        }
        let mut sync = Self::register_plan(CONFIG_BANK, AUDIOSYNC, 0);
        Self::append_plan(&mut plan, &mut sync);
        let mut wake = Self::register_plan(CONFIG_BANK, SHUTDOWN, 1);
        Self::append_plan(&mut plan, &mut wake);
        plan
    }

    fn append_plan(plan: &mut Vec<Vec<u8>>, more: &mut Vec<Vec<u8>>)
        ensures
            views(final(plan)@) == views(old(plan)@) + views(old(more)@),
    {
        let ghost a = old(plan)@;
        let ghost b = old(more)@;
        plan.append(more);
        proof {
            assert(views(plan@) =~= views(a) + views(b));
        }
    }
}

impl<I2C: I2cBus> IS31FL3731<I2C> {
    /// Makes the writes of `plan` in order, stopping at the first that fails.
    fn transfer(&mut self, plan: &Vec<Vec<u8>>) -> (r: Result<(), I2C::Error>)
        ensures
            final(self).addr() == old(self).addr(),
            final(self).current_frame() == old(self).current_frame(),
            sent_plan(final(self).sent(), old(self).sent(), old(self).addr(), views(plan@), r is Ok),
    {
        let mut i: usize = 0;
        while i < plan.len()
            invariant
                0 <= i <= plan@.len(),
                self.address == old(self).address,
                self.frame == old(self).frame,
                self.sent@ == old(self).sent@ + to_device(self.address, views(plan@).take(i as int)),
            decreases plan@.len() - i,
        {
            let ghost before = self.sent@;
            proof {
                self.sent@ = self.sent@.push((self.address, plan@[i as int]@));
                assert(to_device(self.address, views(plan@).take(i + 1)) =~= to_device(self.address, views(plan@).take(i as int)).push((self.address, plan@[i as int]@)));
                assert(self.sent@ =~= old(self).sent@ + to_device(self.address, views(plan@).take(i + 1)));
            }
            match self.i2c.write(self.address, plan[i].as_slice()) {
                Ok(()) => {},
                Err(e) => {
                    proof {
                        assert(self.sent@.len() - old(self).sent@.len() == i + 1);
                    }
                    return Err(e);
                },
            }
            i += 1;
        }
        proof {
            assert(views(plan@).take(plan@.len() as int) =~= views(plan@));
        }
        Ok(())
    }

    /// Sets up the controller: asleep, a pause, then the writes of
    /// `begin_plan` for the current frame.
    pub fn begin<D: DelayMs>(&mut self, delay: &mut D) -> (r: Result<(), Error<I2C::Error>>)
        requires
            old(self).current_frame() <= MAX_FRAMES,
        ensures
            final(self).addr() == old(self).addr(),
            final(self).current_frame() == old(self).current_frame(),
            r is Ok || r matches Err(Error::I2cError(_)),
            sent_plan(
                final(self).sent(),
                old(self).sent(),
                old(self).addr(),
                register_writes(CONFIG_BANK, SHUTDOWN, 0) + begin_writes(old(self).current_frame()),
                r is Ok,
            ),
    {
        let ghost sl = register_writes(CONFIG_BANK, SHUTDOWN, 0);
        let ghost bw = begin_writes(self.frame);
        match self.sleep(true) {
            Ok(()) => {},
            Err(e) => {
                proof {
                    let k = self.sent().len() - old(self).sent().len();
                    assert((sl + bw).take(k) =~= sl.take(k));
                    assert(to_device(self.address, (sl + bw).take(k)) =~= to_device(self.address, sl.take(k)));
                }
                return Err(Error::I2cError(e));
            },
        }
        let ghost mid = self.sent();
        delay.delay_ms(10);
        let plan = Self::begin_plan(self.frame);
        match self.transfer(&plan) {
            Ok(()) => {
                proof {
                    assert(to_device(self.address, sl + bw) =~= to_device(self.address, sl) + to_device(self.address, bw));
                    assert(self.sent() =~= old(self).sent() + to_device(self.address, sl + bw));
                }
                Ok(())
            },
            Err(e) => {
                proof {
                    let j = self.sent().len() - mid.len();
                    assert((sl + bw).take(sl.len() + j) =~= sl + bw.take(j));
                    assert(to_device(self.address, sl + bw.take(j)) =~= to_device(self.address, sl) + to_device(self.address, bw.take(j)));
                    assert(self.sent() =~= old(self).sent() + to_device(self.address, (sl + bw).take(self.sent().len() - old(self).sent().len())));
                }
                Err(Error::I2cError(e))
            },
        }
    }

    /// Sets the brightness of LED `lednum` in the current frame.
    pub fn set_led_pwm(&mut self, lednum: u8, brightness: u8) -> (r: Result<(), Error<I2C::Error>>)
        ensures
            final(self).addr() == old(self).addr(),
            final(self).current_frame() == old(self).current_frame(),
            lednum >= MAX_LEDS ==> (r matches Err(Error::InvalidLocation(n)) && n == lednum),
            lednum < MAX_LEDS ==> r is Ok || r matches Err(Error::I2cError(_)),
            lednum >= MAX_LEDS ==> final(self).sent() == old(self).sent(),
            lednum < MAX_LEDS ==> sent_plan(
                final(self).sent(),
                old(self).sent(),
                old(self).addr(),
                register_writes(old(self).current_frame(), (COLOR_OFFSET + lednum) as u8, brightness),
                r is Ok,
            ),
    {
        if lednum >= MAX_LEDS {
            return Err(Error::InvalidLocation(lednum));
        }
        let plan = Self::register_plan(self.frame, COLOR_OFFSET + lednum, brightness);
        match self.transfer(&plan) {
            Ok(()) => Ok(()),
            Err(e) => Err(Error::I2cError(e)),
        }
    }

    /// Turns audio sync on or off.
    pub fn audio_sync(&mut self, yes: bool) -> (r: Result<(), I2C::Error>)
        ensures
            final(self).addr() == old(self).addr(),
            final(self).current_frame() == old(self).current_frame(),
            sent_plan(final(self).sent(), old(self).sent(), old(self).addr(), register_writes(CONFIG_BANK, AUDIOSYNC, if yes { 1u8 } else { 0u8 }), r is Ok),
    {
        let plan = Self::register_plan(CONFIG_BANK, AUDIOSYNC, if yes { 1 } else { 0 });
        self.transfer(&plan)
    }

    /// Zeroes the brightness registers of `frame` (the current frame for none).
    pub fn clear(&mut self, frame: Option<u8>) -> (r: Result<(), I2C::Error>)
        ensures
            final(self).addr() == old(self).addr(),
            final(self).current_frame() == old(self).current_frame(),
            sent_plan(
                final(self).sent(),
                old(self).sent(),
                old(self).addr(),
                clear_writes(
                    match frame {
                        Some(f) => f,
                        None => old(self).current_frame(),
                    },
                ),
                r is Ok,
            ),
    {
        let frame = match frame {
            Some(f) => f,
            None => self.frame,
        };
        let plan = Self::clear_plan(frame);
        self.transfer(&plan)
    }

    /// Makes `frame` the frame written to (at most `MAX_FRAMES`).
    pub fn set_frame(&mut self, frame: u8) -> (r: Result<(), Error<I2C::Error>>)
        ensures
            final(self).addr() == old(self).addr(),
            frame > MAX_FRAMES ==> (r matches Err(Error::InvalidFrame(f)) && f == frame && final(self).current_frame() == old(self).current_frame()),
            frame <= MAX_FRAMES ==> r is Ok && final(self).current_frame() == frame,
            final(self).sent() == old(self).sent(),
    {
        if frame > MAX_FRAMES {
            return Err(Error::InvalidFrame(frame));
        }
        self.frame = frame;
        Ok(())
    }

    /// Makes `frame` the frame written to and shown (at most `MAX_FRAMES`).
    pub fn show_frame(&mut self, frame: u8) -> (r: Result<(), Error<I2C::Error>>)
        ensures
            final(self).addr() == old(self).addr(),
            frame > MAX_FRAMES ==> (r matches Err(Error::InvalidFrame(f)) && f == frame && final(self).current_frame() == old(self).current_frame()),
            frame <= MAX_FRAMES ==> (r is Ok || r matches Err(Error::I2cError(_))) && final(self).current_frame() == frame,
            frame > MAX_FRAMES ==> final(self).sent() == old(self).sent(),
            frame <= MAX_FRAMES ==> sent_plan(final(self).sent(), old(self).sent(), old(self).addr(), register_writes(CONFIG_BANK, FRAME, frame), r is Ok),
    {
        if frame > MAX_FRAMES {
            return Err(Error::InvalidFrame(frame));
        }
        self.frame = frame;
        let plan = Self::register_plan(CONFIG_BANK, FRAME, frame);
        match self.transfer(&plan) {
            Ok(()) => Ok(()),
            Err(e) => Err(Error::I2cError(e)),
        }
    }

    /// Sets the display mode.
    pub fn mode(&mut self, mode: u8) -> (r: Result<(), I2C::Error>)
        ensures
            final(self).addr() == old(self).addr(),
            final(self).current_frame() == old(self).current_frame(),
            sent_plan(final(self).sent(), old(self).sent(), old(self).addr(), register_writes(CONFIG_BANK, MODE_REGISTER, mode), r is Ok),
    {
        let plan = Self::register_plan(CONFIG_BANK, MODE_REGISTER, mode);
        self.transfer(&plan)
    }

    /// Puts the controller to sleep or wakes it.
    pub fn sleep(&mut self, yes: bool) -> (r: Result<(), I2C::Error>)
        ensures
            final(self).addr() == old(self).addr(),
            final(self).current_frame() == old(self).current_frame(),
            sent_plan(final(self).sent(), old(self).sent(), old(self).addr(), register_writes(CONFIG_BANK, SHUTDOWN, if yes { 0u8 } else { 1u8 }), r is Ok),
    {
        let plan = Self::register_plan(CONFIG_BANK, SHUTDOWN, if yes { 0 } else { 1 });
        self.transfer(&plan)
    }
}

} // verus!
