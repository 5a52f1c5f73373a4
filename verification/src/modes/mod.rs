//! Game modes: the menu, the delivery games, juggle, snake and settings.
use vstd::prelude::*;

use crate::bounded::train_list;
use crate::game_state::GameState;
use crate::input::InputEvent;

pub mod delivery;
pub mod freeplay;
pub mod juggle;
pub mod menu;
pub mod settings;
pub mod snake;
pub mod time;

use delivery::{delivery_input, delivery_restarted, delivery_ticked, FreeplayDeliveryMode, TimedDeliveryMode};
use juggle::{juggle_advanced, juggle_input, juggle_restarted, juggle_ticked, JuggleMode};
use menu::{menu_advanced, menu_input, menu_restarted, menu_ticked, MenuMode};
use settings::{settings_advanced, settings_input, settings_restarted, settings_ticked, SettingsMode};
use snake::{snake_advanced, snake_input, snake_restarted, snake_ticked, SnakeMode};

verus! {

/// The number of menu entries (the snake and the five games).
pub const NUM_MODES: usize = 6;

/// The behaviour of a game mode. `mode_wf` is the consistency of the mode's
/// own state, from its construction on; `ready` is what the mode needs of
/// itself and of the number of trains between calls once started (the game
/// loop changes neither).
pub trait GameModeHandler {
    spec fn mode_wf(&self) -> bool;

    spec fn ready(&self, trains: nat) -> bool;

    /// Starts (or restarts) the mode.
    fn on_restart(&mut self, state: &mut GameState)
        requires
            old(self).mode_wf(),
            old(state).wf(),
        ensures
            final(state).wf(),
            final(self).ready(train_list(final(state).trains).len()),
    ;

    /// One tick of the game.
    fn on_game_tick(&mut self, state: &mut GameState)
        requires
            old(state).wf(),
            old(self).ready(train_list(old(state).trains).len()),
        ensures
            final(state).wf(),
            final(self).ready(train_list(final(state).trains).len()),
    ;

    /// A button event.
    fn on_input_event(&mut self, event: InputEvent, state: &mut GameState)
        requires
            old(state).wf(),
            old(self).ready(train_list(old(state).trains).len()),
        ensures
            final(state).wf(),
            final(self).ready(train_list(final(state).trains).len()),
    ;

    /// Train `train_index` just moved.
    fn on_train_advance(&mut self, train_index: usize, state: &mut GameState)
        requires
            old(state).wf(),
            old(self).ready(train_list(old(state).trains).len()),
            train_index < train_list(old(state).trains).len(),
        ensures
            final(state).wf(),
            final(self).ready(train_list(final(state).trains).len()),
            train_list(final(state).trains).len() >= train_list(old(state).trains).len(),
    ;
}

/// The game modes.
pub enum GameMode {
    Menu(MenuMode),
    DeliveryFreeplay(FreeplayDeliveryMode),
    DeliveryTimed(TimedDeliveryMode),
    Juggle(JuggleMode),
    Snake(SnakeMode),
    SettingsMode(SettingsMode),
}

/// The name shown in the menu for entry `mode_index`.
pub open spec fn mode_names(mode_index: usize) -> [u8; 3] {
    if mode_index == 1 {
        [49u8, 100, 108]
    } else if mode_index == 2 {
        [50u8, 116, 105]
    } else if mode_index == 3 {
        [51u8, 106, 103]
    } else if mode_index == 4 {
        [52u8, 115, 110]
    } else if mode_index == 5 {
        [115u8, 101, 116]
    } else {
        [101u8, 114, 114]
    }
}

impl GameMode {
    /// The name shown in the menu for entry `mode_index` ("err" for none).
    pub fn mode_name(mode_index: usize) -> (r: [u8; 3])
        ensures
            r == mode_names(mode_index),
    {
        match mode_index {
            1 => [49u8, 100, 108],
            2 => [50u8, 116, 105],
            3 => [51u8, 106, 103],
            4 => [52u8, 115, 110],
            5 => [115u8, 101, 116],
            _ => [101u8, 114, 114],
        }
    }
}

/// The variant of mode `m` (0 the menu, then the games in menu order).
pub open spec fn variant_of(m: GameMode) -> usize {
    match m {
        GameMode::Menu(_) => 0,
        GameMode::DeliveryFreeplay(_) => 1,
        GameMode::DeliveryTimed(_) => 2,
        GameMode::Juggle(_) => 3,
        GameMode::Snake(_) => 4,
        GameMode::SettingsMode(_) => 5,
    }
}

impl Default for GameMode {
    /// The menu.
    fn default() -> (r: Self)
        ensures
            variant_of(r) == 0,
            r.mode_wf(),
    {
        GameMode::Menu(MenuMode::default())
    }
}

impl GameMode {
    /// A fresh mode for menu entry `mode_index` (the menu for 0 and for
    /// anything past the last game).
    pub fn from_index(mode_index: usize) -> (r: Self)
        ensures
            variant_of(r) == if 1 <= mode_index < NUM_MODES { mode_index } else { 0 },
            r.mode_wf(),
    {
        match mode_index {
            1 => GameMode::DeliveryFreeplay(FreeplayDeliveryMode::default()),
            2 => GameMode::DeliveryTimed(TimedDeliveryMode::default()),
            3 => GameMode::Juggle(JuggleMode::default()),
            4 => GameMode::Snake(SnakeMode::default()),
            5 => GameMode::SettingsMode(SettingsMode::default()),
            _ => GameMode::Menu(MenuMode::default()),
        }
    }
}

/// `(m, gs)` is `(om, ogs)` after the handler of `om`'s mode restarted it;
/// the mode stays the same.
#[verifier::opaque]
pub open spec fn mode_restarted(m: GameMode, gs: GameState, om: GameMode, ogs: GameState) -> bool {
    match (om, m) {
        (GameMode::Menu(o), GameMode::Menu(n)) => menu_restarted(n, gs, o, ogs),
        (GameMode::DeliveryFreeplay(o), GameMode::DeliveryFreeplay(n)) => delivery_restarted(n.0, gs, o.0, ogs),
        (GameMode::DeliveryTimed(o), GameMode::DeliveryTimed(n)) => delivery_restarted(n.0, gs, o.0, ogs),
        (GameMode::Juggle(o), GameMode::Juggle(n)) => juggle_restarted(n, gs, o, ogs),
        (GameMode::Snake(o), GameMode::Snake(n)) => snake_restarted(n, gs, o, ogs),
        (GameMode::SettingsMode(o), GameMode::SettingsMode(n)) => settings_restarted(n, gs, o, ogs),
        _ => false,
    }
}

/// `(m, gs)` is `(om, ogs)` after a tick of the handler of `om`'s mode; the
/// mode stays the same.
#[verifier::opaque]
pub open spec fn mode_ticked(m: GameMode, gs: GameState, om: GameMode, ogs: GameState) -> bool {
    match (om, m) {
        (GameMode::Menu(o), GameMode::Menu(n)) => menu_ticked(n, gs, o, ogs),
        (GameMode::DeliveryFreeplay(o), GameMode::DeliveryFreeplay(n)) => delivery_ticked(n.0, gs, o.0, ogs),
        (GameMode::DeliveryTimed(o), GameMode::DeliveryTimed(n)) => delivery_ticked(n.0, gs, o.0, ogs),
        (GameMode::Juggle(o), GameMode::Juggle(n)) => juggle_ticked(n, gs, o, ogs),
        (GameMode::Snake(o), GameMode::Snake(n)) => snake_ticked(n, gs, o, ogs),
        (GameMode::SettingsMode(o), GameMode::SettingsMode(n)) => settings_ticked(n, gs, o, ogs),
        _ => false,
    }
}

/// `(m, gs)` is `(om, ogs)` after the handler of `om`'s mode took button
/// event `event`; the mode stays the same.
#[verifier::opaque]
pub open spec fn mode_input(m: GameMode, gs: GameState, om: GameMode, ogs: GameState, event: InputEvent) -> bool {
    match (om, m) {
        (GameMode::Menu(o), GameMode::Menu(n)) => menu_input(n, gs, o, ogs, event),
        (GameMode::DeliveryFreeplay(o), GameMode::DeliveryFreeplay(n)) => delivery_input(n.0, gs, o.0, ogs, event),
        (GameMode::DeliveryTimed(o), GameMode::DeliveryTimed(n)) => delivery_input(n.0, gs, o.0, ogs, event),
        (GameMode::Juggle(o), GameMode::Juggle(n)) => juggle_input(n, gs, o, ogs, event),
        (GameMode::Snake(o), GameMode::Snake(n)) => snake_input(n, gs, o, ogs, event),
        (GameMode::SettingsMode(o), GameMode::SettingsMode(n)) => settings_input(n, gs, o, ogs, event),
        _ => false,
    }
}

/// `(m, gs)` is `(om, ogs)` after the handler of `om`'s mode took the move
/// of train `train_index`; the mode stays the same.
#[verifier::opaque]
pub open spec fn mode_advanced(m: GameMode, gs: GameState, om: GameMode, ogs: GameState, train_index: usize) -> bool {
    match (om, m) {
        (GameMode::Menu(o), GameMode::Menu(n)) => menu_advanced(n, gs, o, ogs, train_index),
        (GameMode::DeliveryFreeplay(o), GameMode::DeliveryFreeplay(n)) => n.0 == o.0 && gs == ogs,
        (GameMode::DeliveryTimed(o), GameMode::DeliveryTimed(n)) => n.0 == o.0 && gs == ogs,
        (GameMode::Juggle(o), GameMode::Juggle(n)) => juggle_advanced(n, gs, o, ogs, train_index),
        (GameMode::Snake(o), GameMode::Snake(n)) => snake_advanced(n, gs, o, ogs, train_index),
        (GameMode::SettingsMode(o), GameMode::SettingsMode(n)) => settings_advanced(n, gs, o, ogs, train_index),
        _ => false,
    }
}

/// Each call goes to the handler of the current mode; the mode stays the same.
impl GameModeHandler for GameMode {
    open spec fn mode_wf(&self) -> bool {
        match self {
            GameMode::Menu(m) => m.mode_wf(),
            GameMode::DeliveryFreeplay(m) => m.mode_wf(),
            GameMode::DeliveryTimed(m) => m.mode_wf(),
            GameMode::Juggle(m) => m.mode_wf(),
            GameMode::Snake(m) => m.mode_wf(),
            GameMode::SettingsMode(m) => m.mode_wf(),
        }
    }

    open spec fn ready(&self, trains: nat) -> bool {
        match self {
            GameMode::Menu(m) => m.ready(trains),
            GameMode::DeliveryFreeplay(m) => m.ready(trains),
            GameMode::DeliveryTimed(m) => m.ready(trains),
            GameMode::Juggle(m) => m.ready(trains),
            GameMode::Snake(m) => m.ready(trains),
            GameMode::SettingsMode(m) => m.ready(trains),
        }
    }

    fn on_restart(&mut self, state: &mut GameState)
        ensures
            mode_restarted(*final(self), *final(state), *old(self), *old(state)),
            variant_of(*final(self)) == variant_of(*old(self)),
            final(self).mode_wf(),
    {
        proof {
            reveal(mode_restarted);
        }
        match self {
            GameMode::Menu(m) => m.on_restart(state),
            GameMode::DeliveryFreeplay(m) => m.on_restart(state),
            GameMode::DeliveryTimed(m) => m.on_restart(state),
            GameMode::Juggle(m) => m.on_restart(state),
            GameMode::Snake(m) => m.on_restart(state),
            GameMode::SettingsMode(m) => m.on_restart(state),
        }
    }

    fn on_game_tick(&mut self, state: &mut GameState)
        ensures
            mode_ticked(*final(self), *final(state), *old(self), *old(state)),
            variant_of(*final(self)) == variant_of(*old(self)),
    {
        proof {
            reveal(mode_ticked);
        }
        match self {
            GameMode::Menu(m) => m.on_game_tick(state),
            GameMode::DeliveryFreeplay(m) => m.on_game_tick(state),
            GameMode::DeliveryTimed(m) => m.on_game_tick(state),
            GameMode::Juggle(m) => m.on_game_tick(state),
            GameMode::Snake(m) => m.on_game_tick(state),
            GameMode::SettingsMode(m) => m.on_game_tick(state),
        }
    }

    fn on_input_event(&mut self, event: InputEvent, state: &mut GameState)
        ensures
            mode_input(*final(self), *final(state), *old(self), *old(state), event),
            variant_of(*final(self)) == variant_of(*old(self)),
    {
        proof {
            reveal(mode_input);
        }
        match self {
            GameMode::Menu(m) => m.on_input_event(event, state),
            GameMode::DeliveryFreeplay(m) => m.on_input_event(event, state),
            GameMode::DeliveryTimed(m) => m.on_input_event(event, state),
            GameMode::Juggle(m) => m.on_input_event(event, state),
            GameMode::Snake(m) => m.on_input_event(event, state),
            GameMode::SettingsMode(m) => m.on_input_event(event, state),
        }
    }

    fn on_train_advance(&mut self, train_index: usize, state: &mut GameState)
        ensures
            mode_advanced(*final(self), *final(state), *old(self), *old(state), train_index),
            variant_of(*final(self)) == variant_of(*old(self)),
    {
        proof {
            reveal(mode_advanced);
        }
        match self {
            GameMode::Menu(m) => m.on_train_advance(train_index, state),
            GameMode::DeliveryFreeplay(m) => m.on_train_advance(train_index, state),
            GameMode::DeliveryTimed(m) => m.on_train_advance(train_index, state),
            GameMode::Juggle(m) => m.on_train_advance(train_index, state),
            GameMode::Snake(m) => m.on_train_advance(train_index, state),
            GameMode::SettingsMode(m) => m.on_train_advance(train_index, state),
        }
    }
}

} // verus!
