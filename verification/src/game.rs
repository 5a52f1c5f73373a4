//! The game loop's decisions: each tick takes the button levels and gives
//! back what the board should do (a tone, the digits, the LEDs). The board
//! support code performs those actions and calls the next tick.
use vstd::prelude::*;

use crate::bounded::{event_list, events_new, events_push, events_slice, train_list, trains_len};
use crate::common::LedUpdate;
use crate::game_settings::GameSettings;
use crate::game_state::{switch_toggled, DisplayState, GameState, MAX_TRAINS};
use crate::input::{scan, BoardInput, InputDirection, InputEvent};
use crate::location::{NUM_PLATFORMS, NUM_SWITCHES};
use crate::modes::{mode_advanced, mode_input, mode_restarted, mode_ticked, variant_of, GameMode, GameModeHandler, NUM_MODES};
use crate::random::Rand;
use crate::switch::Switch;
use crate::tone::{tone_command, TimerTone, ToneCommand};
use crate::train::Train;

verus! {

/// What the digit display should show, at what intensity.
#[derive(Clone, Copy, Debug)]
pub struct DigitsUpdate {
    pub intensity: u8,
    pub display: DisplayState,
}

/// What the board should do after a tick.
pub struct TickOutput {
    /// A tone for the buzzer.
    pub tone: Option<ToneCommand>,
    /// The digits, when what they show changed.
    pub digits: Option<DigitsUpdate>,
    /// Clear all LEDs before the updates.
    pub clear_leds: bool,
    /// LED brightness updates, in order.
    pub led_updates: Vec<LedUpdate>,
}

pub struct Game {
    pub board_buzzer: TimerTone,
    pub board_input: BoardInput,
    /// The menu entry of the current mode.
    pub mode_index: usize,
    pub mode: GameMode,
    /// What the digits show.
    pub last_display: DisplayState,
    /// Whether button presses beep.
    pub buzzer_enabled: bool,
    /// The state the modes play on.
    pub state: GameState,
}

/// The tone a button event makes when the buzzer is enabled.
pub open spec fn event_tone(event: InputEvent) -> Option<ToneCommand> {
    match event {
        InputEvent::SwitchButtonPressed(_) => Some(tone_command(3000, 15)),
        InputEvent::DirectionButtonPressed(InputDirection::Up) => Some(tone_command(3500, 10)),
        InputEvent::DirectionButtonPressed(InputDirection::Right) => Some(tone_command(3500, 10)),
        InputEvent::DirectionButtonPressed(InputDirection::Down) => Some(tone_command(3000, 10)),
        InputEvent::DirectionButtonPressed(InputDirection::Left) => Some(tone_command(3000, 10)),
        InputEvent::DirectionButtonHeld(InputDirection::Left) => Some(tone_command(3000, 10)),
        _ => None,
    }
}

/// The tone of the next event the buttons give (none when the buzzer is off).
pub open spec fn input_tone(g: Game, low: [bool; 12]) -> Option<ToneCommand> {
    match scan(g.board_input.held(), g.board_input.debounce(), low@, 0).2 {
        Some(event) => if g.buzzer_enabled { event_tone(event) } else { None },
        None => None,
    }
}

/// The mode and state `(m, s)` after game `og` handled the part of button
/// event `event` that all modes share: a switch button toggles its switch,
/// holding left goes back to the menu (started afresh), other events leave
/// both alone.
pub open spec fn shared_event(m: GameMode, s: GameState, og: Game, event: InputEvent) -> bool {
    match event {
        InputEvent::SwitchButtonPressed(index) => {
            &&& m == og.mode
            &&& (index as int) < NUM_SWITCHES ==> switch_toggled(s, og.state, index as int)
            &&& (index as int) >= NUM_SWITCHES ==> s == og.state
        },
        InputEvent::DirectionButtonHeld(InputDirection::Left) => {
            &&& variant_of(m) == 0
            &&& exists|fresh: GameMode, sr: GameState| {
                &&& #[trigger] mode_restarted(m, sr, fresh, GameState { target_mode_index: 0, is_over: false, ..og.state })
                &&& s == (GameState { redraw: true, ..sr })
            }
        },
        _ => m == og.mode && s == og.state,
    }
}

/// The indices `i < n` with `moved[i]`, in increasing order.
pub open spec fn moved_indices(moved: Seq<bool>, n: int) -> Seq<usize>
    decreases n,
{
    if n <= 0 {
        Seq::empty()
    } else if moved[n - 1] {
        moved_indices(moved, n - 1).push((n - 1) as usize)
    } else {
        moved_indices(moved, n - 1)
    }
}

/// Step `k` of a run of train moves: the mode and state at `k + 1` are those
/// at `k` after the mode took the move of train `events[k]`.
pub open spec fn move_step(ms: Seq<GameMode>, ss: Seq<GameState>, events: Seq<usize>, k: int) -> bool {
    mode_advanced(ms[k + 1], ss[k + 1], ms[k], ss[k], events[k])
}

/// Modes `ms` and states `ss` are a run of the moves in `events`, one step
/// per moved train.
pub open spec fn moves_chain(ms: Seq<GameMode>, ss: Seq<GameState>, events: Seq<usize>) -> bool {
    &&& ms.len() == events.len() + 1
    &&& ss.len() == events.len() + 1
    &&& forall|k: int| 0 <= k < events.len() ==> #[trigger] move_step(ms, ss, events, k)
}

/// `(m, s)` is `(om, os)` after the mode took, in order, the move of each
/// train listed in `events`.
pub open spec fn moves_taken(m: GameMode, s: GameState, om: GameMode, os: GameState, events: Seq<usize>) -> bool {
    exists|ms: Seq<GameMode>, ss: Seq<GameState>| {
        &&& #[trigger] moves_chain(ms, ss, events)
        &&& ms[0] == om && ss[0] == os
        &&& ms.last() == m && ss.last() == s
    }
}

/// The indices below `n` depend only on the flags below `n`.
proof fn lemma_moved_indices_agree(a: Seq<bool>, b: Seq<bool>, n: int)
    requires
        0 <= n <= a.len(),
        n <= b.len(),
        forall|j: int| 0 <= j < n ==> a[j] == b[j],
    ensures
        moved_indices(a, n) == moved_indices(b, n),
    decreases n,
{
    if n > 0 {
        lemma_moved_indices_agree(a, b, n - 1);
    }
}

/// The indices listed number at most `n` and each is below `n`.
proof fn lemma_moved_indices_bound(moved: Seq<bool>, n: int)
    requires
        0 <= n <= moved.len(),
    ensures
        moved_indices(moved, n).len() <= n,
        forall|k: int| 0 <= k < moved_indices(moved, n).len() ==> #[trigger] moved_indices(moved, n)[k] < n,
    decreases n,
{
    if n > 0 {
        lemma_moved_indices_bound(moved, n - 1);
    }
}

/// The updates of all parts, in order.
pub open spec fn joined(parts: Seq<Seq<LedUpdate>>) -> Seq<LedUpdate>
    decreases parts.len(),
{
    if parts.len() == 0 {
        Seq::empty()
    } else {
        joined(parts.drop_last()) + parts.last()
    }
}

/// The updates of the `Some` entries, in order.
pub open spec fn some_updates(us: Seq<Option<LedUpdate>>) -> Seq<LedUpdate>
    decreases us.len(),
{
    if us.len() == 0 {
        Seq::empty()
    } else {
        let rest = some_updates(us.drop_last());
        match us.last() {
            Some(u) => rest.push(u),
            None => rest,
        }
    }
}

/// State `s` is `os` after every train advanced in order: `moved` says
/// which moved, `ups` holds their LED updates in train order.
pub open spec fn trains_advanced(s: GameState, os: GameState, moved: Seq<bool>, ups: Seq<LedUpdate>) -> bool {
    &&& s.same_but_trains(os)
    &&& s.rand == os.rand
    &&& s.redraw == os.redraw
    &&& train_list(s.trains).len() == train_list(os.trains).len()
    &&& moved.len() == train_list(os.trains).len()
    &&& exists|parts: Seq<Seq<LedUpdate>>| {
        &&& #[trigger] parts.len() == train_list(os.trains).len()
        &&& ups == joined(parts)
        &&& forall|i: int| 0 <= i < train_list(os.trains).len() ==> (#[trigger] train_list(s.trains)[i]).advanced_from(train_list(os.trains)[i], os.settings, os.switches@, os.redraw, (moved[i], parts[i]))
    }
}

/// State `s` is `os` after every platform and then every switch took its
/// tick (all redrawn when `force`); `ups` holds their LED updates in order.
pub open spec fn fixtures_updated(s: GameState, os: GameState, force: bool, ups: Seq<LedUpdate>) -> bool {
    &&& train_list(s.trains) == train_list(os.trains)
    &&& s.rand == os.rand
    &&& s.display == os.display
    &&& s.redraw == os.redraw
    &&& s.is_over == os.is_over
    &&& s.is_paused == os.is_paused
    &&& s.settings == os.settings
    &&& s.target_mode_index == os.target_mode_index
    &&& s.platforms@.len() == NUM_PLATFORMS
    &&& s.switches@.len() == NUM_SWITCHES
    &&& exists|pl: Seq<(bool, Option<LedUpdate>)>, sw: Seq<(bool, Seq<LedUpdate>)>| {
        &&& #[trigger] pl.len() == NUM_PLATFORMS
        &&& #[trigger] sw.len() == NUM_SWITCHES
        &&& ups == some_updates(pl.map_values(|p: (bool, Option<LedUpdate>)| p.1)) + joined(sw.map_values(|w: (bool, Seq<LedUpdate>)| w.1))
        &&& forall|k: int| 0 <= k < NUM_PLATFORMS ==> (#[trigger] s.platforms@[k]).updated_from(os.platforms@[k], os.settings, force, pl[k])
        &&& forall|k: int| 0 <= k < NUM_SWITCHES ==> (#[trigger] s.switches@[k]).updated_from(os.switches@[k], os.settings, train_list(os.trains), force, sw[k])
    }
}

/// Game `g` is `og` after it took the buttons' levels `low` (see
/// `Game::handle_input`); `tone` is the tone it asked for.
pub open spec fn input_handled(g: Game, og: Game, low: [bool; 12], tone: Option<ToneCommand>) -> bool {
    let (h, d, e) = scan(og.board_input.held(), og.board_input.debounce(), low@, 0);
    &&& g.board_input.held() == h
    &&& g.board_input.debounce() == d
    &&& e is None ==> tone is None && g.mode == og.mode && g.mode_index == og.mode_index
        && g.buzzer_enabled == og.buzzer_enabled && g.state == og.state
        && variant_of(g.mode) == variant_of(og.mode)
    &&& e matches Some(event) ==> {
        &&& tone == if og.buzzer_enabled { event_tone(event) } else { None }
        &&& g.buzzer_enabled == match event {
            InputEvent::DirectionButtonHeld(InputDirection::Up) => true,
            InputEvent::DirectionButtonHeld(InputDirection::Down) => false,
            _ => og.buzzer_enabled,
        }
        &&& event == InputEvent::DirectionButtonHeld(InputDirection::Left) ==> g.mode_index == 0
            && variant_of(g.mode) == 0
        &&& event != InputEvent::DirectionButtonHeld(InputDirection::Left) ==> g.mode_index == og.mode_index
            && variant_of(g.mode) == variant_of(og.mode)
        &&& exists|m1: GameMode, s1: GameState| {
            &&& #[trigger] mode_input(g.mode, g.state, m1, s1, event)
            &&& shared_event(m1, s1, og, event)
        }
    }
    &&& g.last_display == og.last_display
}

/// Game `g` is `og` with the mode of its menu entry started afresh: a fresh
/// mode of that entry restarted by its own handler, all LEDs redrawn.
pub open spec fn game_restarted(g: Game, og: Game) -> bool {
    &&& g.mode_index == og.mode_index
    &&& variant_of(g.mode) == if 1 <= og.mode_index < NUM_MODES { og.mode_index } else { 0 }
    &&& g.state.redraw
    &&& g.buzzer_enabled == og.buzzer_enabled
    &&& g.last_display == og.last_display
    &&& g.board_input == og.board_input
    &&& exists|fresh: GameMode, sr: GameState| {
        &&& #[trigger] mode_restarted(g.mode, sr, fresh, og.state)
        &&& g.state == (GameState { redraw: true, ..sr })
    }
}

/// Game `g` is `og` after a change of mode that the state asked for (the
/// mode of the asked-for entry restarted), or `og` itself if none was asked.
pub open spec fn mode_switched(g: Game, og: Game) -> bool {
    if og.state.target_mode_index != og.mode_index {
        game_restarted(g, Game { mode_index: og.state.target_mode_index, ..og })
    } else {
        g == og
    }
}

impl Game {
    /// The game's state is consistent and its mode too.
    pub open spec fn wf(&self) -> bool {
        &&& self.state.wf()
        &&& self.mode.mode_wf()
    }

    /// The mode has been started and can take ticks.
    pub open spec fn started(&self) -> bool {
        &&& self.wf()
        &&& self.mode.ready(train_list(self.state.trains).len())
    }

    /// A game on the menu (not yet started), with a fresh state.
    pub fn new(board_buzzer: TimerTone, board_input: BoardInput, settings: GameSettings, rand: Rand) -> (r: Self)
        requires
            rand.wf(),
        ensures
            r.wf(),
            r.mode_index == 0,
            variant_of(r.mode) == 0,
            r.last_display == DisplayState::Blank,
            r.buzzer_enabled,
            r.state.settings == settings,
            train_list(r.state.trains).len() == 0,
    {
        Game {
            board_buzzer,
            board_input,
            mode_index: 0,
            mode: GameMode::default(),
            last_display: DisplayState::Blank,
            buzzer_enabled: true,
            state: GameState::new(settings, rand),
        }
    }

    /// Starts the mode of the current menu entry afresh, all LEDs redrawn.
    pub fn restart(&mut self)
        requires
            old(self).state.wf(),
        ensures
            final(self).started(),
            game_restarted(*final(self), *old(self)),

    {
        self.mode = GameMode::from_index(self.mode_index);
        let ghost fresh = self.mode;
        self.mode.on_restart(&mut self.state);
        let ghost sr = self.state;
        self.state.redraw = true;
        proof {
            assert(mode_restarted(self.mode, sr, fresh, old(self).state));
        }
    }

    /// Samples the buttons and handles the event (if any): the events all
    /// modes share (tones, toggling a switch, the buzzer on and off, back to
    /// the menu), then the mode's own handling. Returns the tone to play.
    pub fn handle_input(&mut self, low: [bool; 12]) -> (tone: Option<ToneCommand>)
        requires
            old(self).started(),
        ensures
            final(self).started(),
            input_handled(*final(self), *old(self), low, tone),

    {
        let event = match self.board_input.update(low) {
            Some(event) => event,
            None => return None,
        };
        let mut tone: Option<ToneCommand> = None;
        match event {
            InputEvent::SwitchButtonPressed(index) => {
                if self.buzzer_enabled {
                    tone = Some(self.board_buzzer.tone(3000, 15));
                }
                let index = index as usize;
                if index < self.state.switches.len() {
                    self.state.toggle_switch(index);
                }
            },
            InputEvent::DirectionButtonPressed(InputDirection::Up) | InputEvent::DirectionButtonPressed(
                InputDirection::Right,
            ) => {
                if self.buzzer_enabled {
                    tone = Some(self.board_buzzer.tone(3500, 10));
                }
            },
            InputEvent::DirectionButtonPressed(InputDirection::Down) | InputEvent::DirectionButtonPressed(
                InputDirection::Left,
            ) => {
                if self.buzzer_enabled {
                    tone = Some(self.board_buzzer.tone(3000, 10));
                }
            },
            InputEvent::DirectionButtonHeld(InputDirection::Up) => {
                self.buzzer_enabled = true;
            },
            InputEvent::DirectionButtonHeld(InputDirection::Down) => {
                self.buzzer_enabled = false;
            },
            InputEvent::DirectionButtonHeld(InputDirection::Left) => {
                if self.buzzer_enabled {
                    tone = Some(self.board_buzzer.tone(3000, 10));
                }
                self.state.target_mode_index = 0;
                self.mode_index = 0;
                self.state.is_over = false;
                self.restart();
            },
            _ => {},
        }
        let ghost m1 = self.mode;
        let ghost s1 = self.state;
        self.mode.on_input_event(event, &mut self.state);
        proof {
            assert(mode_input(self.mode, self.state, m1, s1, event));
            assert(shared_event(m1, s1, *old(self), event));
        }
        tone
    }

    /// Advances every train in order; returns the indices of the trains that
    /// moved, in order, and their LED updates.
    pub fn advance_trains(&mut self) -> (r: (heapless::Vec<usize, MAX_TRAINS>, Vec<LedUpdate>))
        requires
            old(self).started(),
        ensures
            final(self).started(),
            final(self).mode == old(self).mode,
            final(self).mode_index == old(self).mode_index,
            final(self).last_display == old(self).last_display,
            final(self).board_input == old(self).board_input,
            final(self).buzzer_enabled == old(self).buzzer_enabled,
            exists|moved: Seq<bool>| {
                &&& #[trigger] trains_advanced(final(self).state, old(self).state, moved, r.1@)
                &&& event_list(r.0) == moved_indices(moved, moved.len() as int)
            },
    {
        let n = trains_len(&self.state.trains);
        let mut events = events_new();
        let ghost mut moved: Seq<bool> = Seq::empty();
        let mut updates: Vec<LedUpdate> = Vec::new();
        let ghost mut parts: Seq<Seq<LedUpdate>> = Seq::empty();
        let mut i: usize = 0;
        while i < n
            invariant
                0 <= i <= n,
                n == train_list(old(self).state.trains).len(),
                n <= MAX_TRAINS,
                self.started(),
                self.mode == old(self).mode,
                self.mode_index == old(self).mode_index,
                self.last_display == old(self).last_display,
                self.buzzer_enabled == old(self).buzzer_enabled,
                self.board_input == old(self).board_input,
                self.state.same_but_trains(old(self).state),
                self.state.rand == old(self).state.rand,
                self.state.redraw == old(self).state.redraw,
                train_list(self.state.trains).len() == n,
                moved.len() == i,
                event_list(events) == moved_indices(moved, i as int),
                parts.len() == i,
                updates@ == joined(parts),
                forall|j: int| i <= j < n ==> #[trigger] train_list(self.state.trains)[j] == train_list(old(self).state.trains)[j],
                forall|j: int| 0 <= j < i ==> (#[trigger] train_list(self.state.trains)[j]).advanced_from(train_list(old(self).state.trains)[j], old(self).state.settings, old(self).state.switches@, old(self).state.redraw, (moved[j], parts[j])),
            decreases n - i,
        {
            let (m, mut ups) = self.state.advance_train(i);
            proof {
                lemma_moved_indices_bound(moved, i as int);
                let old_parts = parts;
                parts = parts.push(ups@);
                assert(parts.drop_last() =~= old_parts);
                let old_moved = moved;
                moved = moved.push(m);
                lemma_moved_indices_agree(old_moved, moved, i as int);
            }
            if m {
                let _ = events_push(&mut events, i);
            }
            updates.append(&mut ups);
            i += 1;
        }
        proof {
            assert(parts.len() == train_list(old(self).state.trains).len());
            assert(trains_advanced(self.state, old(self).state, moved, updates@));
            assert(event_list(events) == moved_indices(moved, moved.len() as int));
        }
        let r = (events, updates);
        proof {
            assert(trains_advanced(self.state, old(self).state, moved, r.1@));
            assert(event_list(r.0) == moved_indices(moved, moved.len() as int));
        }
        r
    }

    /// Tells the mode of each train that moved, in the order listed.
    pub fn notify_moves(&mut self, events: &heapless::Vec<usize, MAX_TRAINS>)
        requires
            old(self).started(),
            forall|k: int| 0 <= k < event_list(*events).len() ==> #[trigger] event_list(*events)[k] < train_list(old(self).state.trains).len(),
        ensures
            final(self).started(),
            moves_taken(final(self).mode, final(self).state, old(self).mode, old(self).state, event_list(*events)),
            variant_of(final(self).mode) == variant_of(old(self).mode),
            train_list(final(self).state.trains).len() >= train_list(old(self).state.trains).len(),
            final(self).mode_index == old(self).mode_index,
            final(self).last_display == old(self).last_display,
            final(self).board_input == old(self).board_input,
            final(self).buzzer_enabled == old(self).buzzer_enabled,
    {
        let list = events_slice(events);
        let ghost mut ms: Seq<GameMode> = seq![self.mode];
        let ghost mut ss: Seq<GameState> = seq![self.state];
        let mut k: usize = 0;
        while k < list.len()
            invariant
                0 <= k <= list@.len(),
                list@ == event_list(*events),
                forall|j: int| 0 <= j < list@.len() ==> #[trigger] list@[j] < train_list(old(self).state.trains).len(),
                self.started(),
                ms.len() == k + 1,
                ss.len() == k + 1,
                ms[0] == old(self).mode,
                ss[0] == old(self).state,
                ms.last() == self.mode,
                ss.last() == self.state,
                forall|j: int| 0 <= j < k ==> #[trigger] move_step(ms, ss, list@, j),
                variant_of(self.mode) == variant_of(old(self).mode),
                train_list(self.state.trains).len() >= train_list(old(self).state.trains).len(),
                self.mode_index == old(self).mode_index,
                self.last_display == old(self).last_display,
                self.buzzer_enabled == old(self).buzzer_enabled,
                self.board_input == old(self).board_input,
            decreases list@.len() - k,
        {
            let index = list[k];
            self.mode.on_train_advance(index, &mut self.state);
            proof {
                let oms = ms;
                let oss = ss;
                ms = ms.push(self.mode);
                ss = ss.push(self.state);
                assert forall|j: int| 0 <= j < k + 1 implies #[trigger] move_step(ms, ss, list@, j) by {
                    assert(ms[j] == oms[j] && ss[j] == oss[j]);
                    if j < k {
                        assert(move_step(oms, oss, list@, j));
                        assert(ms[j + 1] == oms[j + 1] && ss[j + 1] == oss[j + 1]);
                    }
                }
            }
            k += 1;
        }
        proof {
            assert(moves_chain(ms, ss, list@));
        }
    }

    /// Every platform, then every switch, takes its tick (all redrawn when
    /// `force`); returns their LED updates.
    pub fn update_fixtures(&mut self, force: bool) -> (ups: Vec<LedUpdate>)
        requires
            old(self).started(),
        ensures
            final(self).started(),
            final(self).mode == old(self).mode,
            final(self).mode_index == old(self).mode_index,
            final(self).last_display == old(self).last_display,
            final(self).board_input == old(self).board_input,
            final(self).buzzer_enabled == old(self).buzzer_enabled,
            fixtures_updated(final(self).state, old(self).state, force, ups@),
    {
        let mut updates: Vec<LedUpdate> = Vec::new();
        let ghost mut pl: Seq<(bool, Option<LedUpdate>)> = Seq::empty();
        let mut k: usize = 0;
        while k < NUM_PLATFORMS
            invariant
                0 <= k <= NUM_PLATFORMS,
                self.started(),
                self.mode == old(self).mode,
                self.mode_index == old(self).mode_index,
                self.last_display == old(self).last_display,
                self.buzzer_enabled == old(self).buzzer_enabled,
                self.board_input == old(self).board_input,
                train_list(self.state.trains) == train_list(old(self).state.trains),
                self.state.switches@ == old(self).state.switches@,
                self.state.rand == old(self).state.rand,
                self.state.display == old(self).state.display,
                self.state.redraw == old(self).state.redraw,
                self.state.is_over == old(self).state.is_over,
                self.state.is_paused == old(self).state.is_paused,
                self.state.settings == old(self).state.settings,
                self.state.target_mode_index == old(self).state.target_mode_index,
                pl.len() == k,
                updates@ == some_updates(pl.map_values(|p: (bool, Option<LedUpdate>)| p.1)),
                forall|j: int| k <= j < NUM_PLATFORMS ==> #[trigger] self.state.platforms@[j] == old(self).state.platforms@[j],
                forall|j: int| 0 <= j < k ==> (#[trigger] self.state.platforms@[j]).updated_from(old(self).state.platforms@[j], old(self).state.settings, force, pl[j]),
            decreases NUM_PLATFORMS - k,
        {
            let r = self.state.update_platform(k, force);
            proof {
                let old_pl = pl;
                pl = pl.push(r);
                assert(pl.map_values(|p: (bool, Option<LedUpdate>)| p.1).drop_last() =~= old_pl.map_values(|p: (bool, Option<LedUpdate>)| p.1));
            }
            match r.1 {
                Some(u) => updates.push(u),
                None => {},
            }
            k += 1;
        }
        let ghost platform_part = updates@;
        let ghost mut sw: Seq<(bool, Seq<LedUpdate>)> = Seq::empty();
        let mut k: usize = 0;
        while k < NUM_SWITCHES
            invariant
                0 <= k <= NUM_SWITCHES,
                self.started(),
                self.mode == old(self).mode,
                self.mode_index == old(self).mode_index,
                self.last_display == old(self).last_display,
                self.buzzer_enabled == old(self).buzzer_enabled,
                self.board_input == old(self).board_input,
                train_list(self.state.trains) == train_list(old(self).state.trains),
                self.state.rand == old(self).state.rand,
                self.state.display == old(self).state.display,
                self.state.redraw == old(self).state.redraw,
                self.state.is_over == old(self).state.is_over,
                self.state.is_paused == old(self).state.is_paused,
                self.state.settings == old(self).state.settings,
                self.state.target_mode_index == old(self).state.target_mode_index,
                self.state.platforms@.len() == NUM_PLATFORMS,
                forall|j: int| 0 <= j < NUM_PLATFORMS ==> (#[trigger] self.state.platforms@[j]).updated_from(old(self).state.platforms@[j], old(self).state.settings, force, pl[j]),
                pl.len() == NUM_PLATFORMS,
                platform_part == some_updates(pl.map_values(|p: (bool, Option<LedUpdate>)| p.1)),
                sw.len() == k,
                updates@ == platform_part + joined(sw.map_values(|w: (bool, Seq<LedUpdate>)| w.1)),
                forall|j: int| k <= j < NUM_SWITCHES ==> #[trigger] self.state.switches@[j] == old(self).state.switches@[j],
                forall|j: int| 0 <= j < k ==> (#[trigger] self.state.switches@[j]).updated_from(old(self).state.switches@[j], old(self).state.settings, train_list(old(self).state.trains), force, sw[j]),
            decreases NUM_SWITCHES - k,
        {
            let (drawn, mut ups) = self.state.update_switch(k, force);
            proof {
                let old_sw = sw;
                sw = sw.push((drawn, ups@));
                let m = sw.map_values(|w: (bool, Seq<LedUpdate>)| w.1);
                assert(m.drop_last() =~= old_sw.map_values(|w: (bool, Seq<LedUpdate>)| w.1));
                assert(m.last() == ups@);
            }
            updates.append(&mut ups);
            k += 1;
        }
        updates
    }

    /// One tick: the buttons, a change of mode if one was asked for, the
    /// mode's tick, the digits when what they show changed, and (unless the
    /// game is over) the trains, the mode's reaction to moved trains, the
    /// platforms and the switches.
    pub fn tick(&mut self, low: [bool; 12]) -> (out: TickOutput)
        requires
            old(self).started(),
        ensures
            final(self).started(),
            out.tone == input_tone(*old(self), low),
            out.digits is None ==> final(self).last_display == old(self).last_display,
            exists|g1: Game, g2: Game, m3: GameMode, s0: GameState| {
                &&& #[trigger] input_handled(g1, *old(self), low, out.tone)
                &&& #[trigger] mode_switched(g2, g1)
                &&& #[trigger] mode_ticked(m3, s0, g2.mode, g2.state)
                &&& s0.wf()
                &&& final(self).mode_index == g2.mode_index
                &&& final(self).buzzer_enabled == g2.buzzer_enabled
                &&& final(self).board_input == g2.board_input
                &&& out.clear_leds == s0.redraw
                &&& out.digits matches Some(d) ==> {
                    &&& d.display == s0.display
                    &&& d.display != old(self).last_display
                    &&& d.intensity == s0.settings.digit_level()
                    &&& final(self).last_display == d.display
                }
                &&& out.digits is None ==> s0.display == old(self).last_display
                &&& s0.is_over ==> out.led_updates@.len() == 0 && final(self).state == s0 && final(self).mode == m3
                &&& !s0.is_over ==> exists|s1: GameState, s2: GameState, s3: GameState, moved: Seq<bool>, ups1: Seq<LedUpdate>, ups2: Seq<LedUpdate>| {
                    &&& #[trigger] trains_advanced(s1, s0, moved, ups1)
                    &&& moves_taken(final(self).mode, s2, m3, s1, moved_indices(moved, moved.len() as int))
                    &&& #[trigger] fixtures_updated(s3, s2, s0.redraw, ups2)
                    &&& out.led_updates@ == ups1 + ups2
                    &&& final(self).state == (GameState { redraw: false, ..s3 })
                }
            },
    {
        let tone = self.handle_input(low);
        let ghost g1 = *self;
        if self.state.target_mode_index != self.mode_index {
            self.mode_index = self.state.target_mode_index;
            self.restart();
        }
        let ghost g2 = *self;
        proof {
            assert(mode_switched(g2, g1));
        }
        self.mode.on_game_tick(&mut self.state);
        let ghost m3 = self.mode;
        let digits = if self.last_display != self.state.display {
            self.last_display = self.state.display;
            Some(DigitsUpdate { intensity: self.state.settings.digit_brightness_level(), display: self.state.display })
        } else {
            None
        };
        let clear_leds = self.state.redraw;
        let ghost s0 = self.state;
        proof {
            assert(input_handled(g1, *old(self), low, tone));
            assert(mode_ticked(m3, s0, g2.mode, g2.state));
        }
        if self.state.is_over {
            proof {
                assert(s0.wf());
            }
            return TickOutput { tone, digits, clear_leds, led_updates: Vec::new() };
        }
        let force = self.state.redraw;
        let (events, mut led_updates) = self.advance_trains();
        let ghost moved = choose|moved: Seq<bool>| #[trigger] trains_advanced(self.state, s0, moved, led_updates@)
            && event_list(events) == moved_indices(moved, moved.len() as int);
        proof {
            lemma_moved_indices_bound(moved, moved.len() as int);
        }
        let ghost s1 = self.state;
        let ghost ups1 = led_updates@;
        self.notify_moves(&events);
        let ghost s2 = self.state;
        let ghost m4 = self.mode;
        let mut fixture_updates = self.update_fixtures(force);
        let ghost s3 = self.state;
        let ghost ups2 = fixture_updates@;
        led_updates.append(&mut fixture_updates);
        self.state.redraw = false;
        proof {
            assert(s0.wf());
            assert(trains_advanced(s1, s0, moved, ups1));
            assert(moves_taken(m4, s2, m3, s1, moved_indices(moved, moved.len() as int)));
            assert(fixtures_updated(s3, s2, s0.redraw, ups2));
        }
        TickOutput { tone, digits, clear_leds, led_updates }
    }
}

} // verus!
