//! User settings: brightness levels, the buzzer, game speed and autostop.
//! They are stored as seven bytes; whatever the stored bytes hold, loading
//! them yields settings within range.
use vstd::prelude::*;

verus! {

pub const DIGITS_MAX_BRIGHTNESS: u8 = 9;

pub const DIGITS_BRIGHTNESS_DEFAULT: u8 = 1;

/// Six brightness levels between 0 and 255.
pub const LED_BRIGHTNESS_LEVEL_COUNT: u8 = 6;

/// Red LEDs are brighter, so their levels are lower.
pub const RED_BRIGHTNESS_LEVELS: [u8; 6] = [0, 28, 37, 60, 90, 127];

pub const YEL_BRIGHTNESS_LEVELS: [u8; 6] = [0, 50, 100, 150, 200, 255];

/// Yellow cars at full brightness.
pub const CAR_BRIGHTNESS_LEVEL_DEFAULT: u8 = 5;

/// Red platforms at half brightness.
pub const PLATFORM_BRIGHTNESS_LEVEL_DEFAULT: u8 = 3;

pub const SWITCH_BRIGHTNESS_LEVEL_DEFAULT: u8 = 1;

pub const GAME_SPEED_LEVEL_COUNT: u8 = 3;

pub const GAME_SPEED_LEVELS: [u8; 3] = [20, 10, 5];

pub const GAME_SPEED_LEVEL_DEFAULT: u8 = 1;

/// The higher the level, the faster the speeds at which the train stops.
pub const AUTOSTOP_LEVEL_COUNT: u8 = 3;

pub const AUTOSTOP_LEVEL_DEFAULT: u8 = 2;

/// Number of bytes the settings occupy in storage.
pub const SETTINGS_BYTES: usize = 7;

pub struct GameSettings {
    digit_brightness_level: u8,
    car_brightness_level: u8,
    platform_brightness_level: u8,
    switch_brightness_level: u8,
    buzzer_enabled: bool,
    game_speed_level: u8,
    autostop_level: u8,
}

/// The level a stored byte loads as: itself when in range, else the default.
pub open spec fn load_level(stored: u8, in_range: bool, default: u8) -> u8 {
    if in_range { stored } else { default }
}

impl GameSettings {
    #[verifier::type_invariant]
    spec fn inv(self) -> bool {
        &&& self.digit_brightness_level <= DIGITS_MAX_BRIGHTNESS
        &&& self.car_brightness_level < LED_BRIGHTNESS_LEVEL_COUNT
        &&& self.platform_brightness_level < LED_BRIGHTNESS_LEVEL_COUNT
        &&& self.switch_brightness_level < LED_BRIGHTNESS_LEVEL_COUNT
        &&& self.game_speed_level < GAME_SPEED_LEVEL_COUNT
        &&& self.autostop_level <= AUTOSTOP_LEVEL_COUNT
    }

    pub closed spec fn digit_level(self) -> u8 {
        self.digit_brightness_level
    }

    pub closed spec fn car_level(self) -> u8 {
        self.car_brightness_level
    }

    pub closed spec fn platform_level(self) -> u8 {
        self.platform_brightness_level
    }

    pub closed spec fn switch_level(self) -> u8 {
        self.switch_brightness_level
    }

    pub closed spec fn buzzer(self) -> bool {
        self.buzzer_enabled
    }

    pub closed spec fn speed_level(self) -> u8 {
        self.game_speed_level
    }

    pub closed spec fn autostop(self) -> u8 {
        self.autostop_level
    }

    pub open spec fn car_max(self) -> u8 {
        YEL_BRIGHTNESS_LEVELS@[self.car_level() as int]
    }

    pub open spec fn platform_max(self) -> u8 {
        RED_BRIGHTNESS_LEVELS@[self.platform_level() as int]
    }

    pub open spec fn switch_max(self) -> u8 {
        YEL_BRIGHTNESS_LEVELS@[self.switch_level() as int]
    }

    /// All settings as one tuple: digit, car, platform and switch levels,
    /// buzzer, speed level and autostop level.
    pub open spec fn levels(self) -> (u8, u8, u8, u8, bool, u8, u8) {
        (
            self.digit_level(),
            self.car_level(),
            self.platform_level(),
            self.switch_level(),
            self.buzzer(),
            self.speed_level(),
            self.autostop(),
        )
    }

    /// Every level is within its range (true of every settings value that exists).
    pub open spec fn in_range(self) -> bool {
        &&& self.digit_level() <= DIGITS_MAX_BRIGHTNESS
        &&& self.car_level() < LED_BRIGHTNESS_LEVEL_COUNT
        &&& self.platform_level() < LED_BRIGHTNESS_LEVEL_COUNT
        &&& self.switch_level() < LED_BRIGHTNESS_LEVEL_COUNT
        &&& self.speed_level() < GAME_SPEED_LEVEL_COUNT
        &&& self.autostop() <= AUTOSTOP_LEVEL_COUNT
    }

    /// What loading `stored` yields: each byte, or its default where out of range.
    pub open spec fn loads_as(stored: [u8; 7], r: Self) -> bool {
        &&& r.digit_level() == load_level(stored@[0], stored@[0] <= DIGITS_MAX_BRIGHTNESS, DIGITS_BRIGHTNESS_DEFAULT)
        &&& r.car_level() == load_level(stored@[1], stored@[1] < LED_BRIGHTNESS_LEVEL_COUNT, CAR_BRIGHTNESS_LEVEL_DEFAULT)
        &&& r.platform_level() == load_level(stored@[2], stored@[2] < LED_BRIGHTNESS_LEVEL_COUNT, PLATFORM_BRIGHTNESS_LEVEL_DEFAULT)
        &&& r.switch_level() == load_level(stored@[3], stored@[3] < LED_BRIGHTNESS_LEVEL_COUNT, SWITCH_BRIGHTNESS_LEVEL_DEFAULT)
        &&& r.buzzer() == (stored@[4] != 0)
        &&& r.speed_level() == load_level(stored@[5], stored@[5] < GAME_SPEED_LEVEL_COUNT, GAME_SPEED_LEVEL_DEFAULT)
        &&& r.autostop() == load_level(stored@[6], stored@[6] <= AUTOSTOP_LEVEL_COUNT, AUTOSTOP_LEVEL_DEFAULT)
    }

    /// Loads settings from their stored bytes, replacing each out-of-range
    /// level by its default.
    pub fn new(stored: [u8; 7]) -> (r: Self)
        ensures
            Self::loads_as(stored, r),
            r.in_range(),
    {
        let mut digit_brightness_level = stored[0];
        if digit_brightness_level > DIGITS_MAX_BRIGHTNESS {
            digit_brightness_level = DIGITS_BRIGHTNESS_DEFAULT;
        }
        let mut car_brightness_level = stored[1];
        if car_brightness_level >= LED_BRIGHTNESS_LEVEL_COUNT {
            car_brightness_level = CAR_BRIGHTNESS_LEVEL_DEFAULT;
        }
        let mut platform_brightness_level = stored[2];
        if platform_brightness_level >= LED_BRIGHTNESS_LEVEL_COUNT {
            platform_brightness_level = PLATFORM_BRIGHTNESS_LEVEL_DEFAULT;
        }
        let mut switch_brightness_level = stored[3];
        if switch_brightness_level >= LED_BRIGHTNESS_LEVEL_COUNT {
            switch_brightness_level = SWITCH_BRIGHTNESS_LEVEL_DEFAULT;
        }
        let buzzer_enabled = stored[4] != 0;
        let mut game_speed_level = stored[5];
        if game_speed_level >= GAME_SPEED_LEVEL_COUNT {
            game_speed_level = GAME_SPEED_LEVEL_DEFAULT;
        }
        let mut autostop_level = stored[6];
        if autostop_level > AUTOSTOP_LEVEL_COUNT {
            autostop_level = AUTOSTOP_LEVEL_DEFAULT;
        }
        Self {
            digit_brightness_level,
            car_brightness_level,
            platform_brightness_level,
            switch_brightness_level,
            buzzer_enabled,
            game_speed_level,
            autostop_level,
        }
    }

    /// The bytes to store, in the order `new` reads them.
    pub fn save(&self) -> (r: [u8; 7])
        ensures
            self.in_range(),
            r@ == seq![
                self.digit_level(),
                self.car_level(),
                self.platform_level(),
                self.switch_level(),
                if self.buzzer() { 1u8 } else { 0u8 },
                self.speed_level(),
                self.autostop(),
            ],
    {
        proof {
            use_type_invariant(self);
        }
        let r = [
            self.digit_brightness_level,
            self.car_brightness_level,
            self.platform_brightness_level,
            self.switch_brightness_level,
            if self.buzzer_enabled { 1u8 } else { 0u8 },
            self.game_speed_level,
            self.autostop_level,
        ];
        assert(r@ =~= seq![
            self.digit_level(),
            self.car_level(),
            self.platform_level(),
            self.switch_level(),
            if self.buzzer() { 1u8 } else { 0u8 },
            self.speed_level(),
            self.autostop(),
        ]);
        r
    }

    /// The settings that `new` loads from `save`'s bytes are the saved settings.
    pub proof fn lemma_save_load(self, loaded: Self, stored: [u8; 7])
        requires
            stored@ == seq![
                self.digit_level(),
                self.car_level(),
                self.platform_level(),
                self.switch_level(),
                if self.buzzer() { 1u8 } else { 0u8 },
                self.speed_level(),
                self.autostop(),
            ],
            Self::loads_as(stored, loaded),
            self.in_range(),
        ensures
            loaded.levels() == self.levels(),
    {
    }

    pub fn digit_brightness_level(&self) -> (r: u8)
        ensures
            r == self.digit_level(),
            r <= DIGITS_MAX_BRIGHTNESS,
    {
        proof {
            use_type_invariant(self);
        }
        self.digit_brightness_level
    }

    pub fn inc_digit_brightness_level(&mut self)
        ensures
            final(self).levels() == (if old(self).digit_level() < DIGITS_MAX_BRIGHTNESS { (old(self).digit_level() + 1) as u8 } else { old(self).digit_level() }, old(self).levels().1, old(self).levels().2, old(self).levels().3, old(self).levels().4, old(self).levels().5, old(self).levels().6),
    {
        proof {
            use_type_invariant(&*self);
        }
        if self.digit_brightness_level < DIGITS_MAX_BRIGHTNESS {
            self.digit_brightness_level = self.digit_brightness_level + 1;
        }
    }

    pub fn dec_digit_brightness_level(&mut self)
        ensures
            final(self).levels() == (if old(self).digit_level() > 0 { (old(self).digit_level() - 1) as u8 } else { old(self).digit_level() }, old(self).levels().1, old(self).levels().2, old(self).levels().3, old(self).levels().4, old(self).levels().5, old(self).levels().6),
    {
        proof {
            use_type_invariant(&*self);
        }
        if self.digit_brightness_level > 0 {
            self.digit_brightness_level = self.digit_brightness_level - 1;
        }
    }

    pub fn car_brightness(&self) -> (r: u8)
        ensures
            r == self.car_max(),
    {
        proof {
            use_type_invariant(self);
        }
        YEL_BRIGHTNESS_LEVELS[self.car_brightness_level as usize]
    }

    pub fn car_brightness_level(&self) -> (r: u8)
        ensures
            r == self.car_level(),
            r < LED_BRIGHTNESS_LEVEL_COUNT,
    {
        proof {
            use_type_invariant(self);
        }
        self.car_brightness_level
    }

    pub fn platform_brightness(&self) -> (r: u8)
        ensures
            r == self.platform_max(),
    {
        proof {
            use_type_invariant(self);
        }
        RED_BRIGHTNESS_LEVELS[self.platform_brightness_level as usize]
    }

    pub fn platform_brightness_level(&self) -> (r: u8)
        ensures
            r == self.platform_level(),
            r < LED_BRIGHTNESS_LEVEL_COUNT,
    {
        proof {
            use_type_invariant(self);
        }
        self.platform_brightness_level
    }

    pub fn switch_brightness(&self) -> (r: u8)
        ensures
            r == self.switch_max(),
    {
        proof {
            use_type_invariant(self);
        }
        YEL_BRIGHTNESS_LEVELS[self.switch_brightness_level as usize]
    }

    pub fn switch_brightness_level(&self) -> (r: u8)
        ensures
            r == self.switch_level(),
            r < LED_BRIGHTNESS_LEVEL_COUNT,
    {
        proof {
            use_type_invariant(self);
        }
        self.switch_brightness_level
    }

    pub fn is_buzzer_enabled(&self) -> (r: bool)
        ensures
            r == self.buzzer(),
    {
        self.buzzer_enabled
    }

    pub fn toggle_buzzer(&mut self)
        ensures
            final(self).levels() == (old(self).levels().0, old(self).levels().1, old(self).levels().2, old(self).levels().3, !old(self).buzzer(), old(self).levels().5, old(self).levels().6),
    {
        proof {
            use_type_invariant(&*self);
        }
        self.buzzer_enabled = !self.buzzer_enabled;
    }

    /// Ticks per move at the current speed level.
    pub fn game_speed(&self) -> (r: u32)
        ensures
            r == GAME_SPEED_LEVELS@[self.speed_level() as int],
    {
        proof {
            use_type_invariant(self);
        }
        GAME_SPEED_LEVELS[self.game_speed_level as usize] as u32
    }

    pub fn game_speed_level(&self) -> (r: u8)
        ensures
            r == self.speed_level(),
            r < GAME_SPEED_LEVEL_COUNT,
    {
        proof {
            use_type_invariant(self);
        }
        self.game_speed_level
    }

    pub fn autostop_level(&self) -> (r: u8)
        ensures
            r == self.autostop(),
            r <= AUTOSTOP_LEVEL_COUNT,
    {
        proof {
            use_type_invariant(self);
        }
        self.autostop_level
    }

    pub fn inc_car_brightness_level(&mut self)
        ensures
            final(self).levels() == (old(self).levels().0, if old(self).car_level() < LED_BRIGHTNESS_LEVEL_COUNT - 1 { (old(self).car_level() + 1) as u8 } else { old(self).car_level() }, old(self).levels().2, old(self).levels().3, old(self).levels().4, old(self).levels().5, old(self).levels().6),
    {
        proof {
            use_type_invariant(&*self);
        }
        if self.car_brightness_level < LED_BRIGHTNESS_LEVEL_COUNT - 1 {
            self.car_brightness_level = self.car_brightness_level + 1;
        }
    }

    pub fn dec_car_brightness_level(&mut self)
        ensures
            final(self).levels() == (old(self).levels().0, if old(self).car_level() > 0 { (old(self).car_level() - 1) as u8 } else { old(self).car_level() }, old(self).levels().2, old(self).levels().3, old(self).levels().4, old(self).levels().5, old(self).levels().6),
    {
        proof {
            use_type_invariant(&*self);
        }
        if self.car_brightness_level > 0 {
            self.car_brightness_level = self.car_brightness_level - 1;
        }
    }

    pub fn inc_platform_brightness_level(&mut self)
        ensures
            final(self).levels() == (old(self).levels().0, old(self).levels().1, if old(self).platform_level() < LED_BRIGHTNESS_LEVEL_COUNT - 1 { (old(self).platform_level() + 1) as u8 } else { old(self).platform_level() }, old(self).levels().3, old(self).levels().4, old(self).levels().5, old(self).levels().6),
    {
        proof {
            use_type_invariant(&*self);
        }
        if self.platform_brightness_level < LED_BRIGHTNESS_LEVEL_COUNT - 1 {
            self.platform_brightness_level = self.platform_brightness_level + 1;
        }
    }

    pub fn dec_platform_brightness_level(&mut self)
        ensures
            final(self).levels() == (old(self).levels().0, old(self).levels().1, if old(self).platform_level() > 0 { (old(self).platform_level() - 1) as u8 } else { old(self).platform_level() }, old(self).levels().3, old(self).levels().4, old(self).levels().5, old(self).levels().6),
    {
        proof {
            use_type_invariant(&*self);
        }
        if self.platform_brightness_level > 0 {
            self.platform_brightness_level = self.platform_brightness_level - 1;
        }
    }

    pub fn inc_switch_brightness_level(&mut self)
        ensures
            final(self).levels() == (old(self).levels().0, old(self).levels().1, old(self).levels().2, if old(self).switch_level() < LED_BRIGHTNESS_LEVEL_COUNT - 1 { (old(self).switch_level() + 1) as u8 } else { old(self).switch_level() }, old(self).levels().4, old(self).levels().5, old(self).levels().6),
    {
        proof {
            use_type_invariant(&*self);
        }
        if self.switch_brightness_level < LED_BRIGHTNESS_LEVEL_COUNT - 1 {
            self.switch_brightness_level = self.switch_brightness_level + 1;
        }
    }

    pub fn dec_switch_brightness_level(&mut self)
        ensures
            final(self).levels() == (old(self).levels().0, old(self).levels().1, old(self).levels().2, if old(self).switch_level() > 0 { (old(self).switch_level() - 1) as u8 } else { old(self).switch_level() }, old(self).levels().4, old(self).levels().5, old(self).levels().6),
    {
        proof {
            use_type_invariant(&*self);
        }
        if self.switch_brightness_level > 0 {
            self.switch_brightness_level = self.switch_brightness_level - 1;
        }
    }

    pub fn inc_game_speed(&mut self)
        ensures
            final(self).levels() == (old(self).levels().0, old(self).levels().1, old(self).levels().2, old(self).levels().3, old(self).levels().4, if old(self).speed_level() < GAME_SPEED_LEVEL_COUNT - 1 { (old(self).speed_level() + 1) as u8 } else { old(self).speed_level() }, old(self).levels().6),
    {
        proof {
            use_type_invariant(&*self);
        }
        if self.game_speed_level < GAME_SPEED_LEVEL_COUNT - 1 {
            self.game_speed_level = self.game_speed_level + 1;
        }
    }

    pub fn dec_game_speed(&mut self)
        ensures
            final(self).levels() == (old(self).levels().0, old(self).levels().1, old(self).levels().2, old(self).levels().3, old(self).levels().4, if old(self).speed_level() > 0 { (old(self).speed_level() - 1) as u8 } else { old(self).speed_level() }, old(self).levels().6),
    {
        proof {
            use_type_invariant(&*self);
        }
        if self.game_speed_level > 0 {
            self.game_speed_level = self.game_speed_level - 1;
        }
    }

    pub fn inc_autostop_level(&mut self)
        ensures
            final(self).levels() == (old(self).levels().0, old(self).levels().1, old(self).levels().2, old(self).levels().3, old(self).levels().4, old(self).levels().5, if old(self).autostop() < AUTOSTOP_LEVEL_COUNT - 1 { (old(self).autostop() + 1) as u8 } else { old(self).autostop() }),
    {
        proof {
            use_type_invariant(&*self);
        }
        if self.autostop_level < AUTOSTOP_LEVEL_COUNT - 1 {
            self.autostop_level = self.autostop_level + 1;
        }
    }

    pub fn dec_autostop_level(&mut self)
        ensures
            final(self).levels() == (old(self).levels().0, old(self).levels().1, old(self).levels().2, old(self).levels().3, old(self).levels().4, old(self).levels().5, if old(self).autostop() > 0 { (old(self).autostop() - 1) as u8 } else { old(self).autostop() }),
    {
        proof {
            use_type_invariant(&*self);
        }
        if self.autostop_level > 0 {
            self.autostop_level = self.autostop_level - 1;
        }
    }
}

} // verus!
