//! The board's twelve buttons: eight switch buttons and four direction
//! buttons, sampled once per tick and turned into press and hold events.
use vstd::prelude::*;

use crate::NUM_BUTTONS;

verus! {

pub const PRESS_CYCLES: u8 = 1;

pub const HOLD_CYCLES: u8 = 20;

pub const DEBOUNCE_CYCLES: u8 = 3;

#[derive(Clone, Copy, Debug, PartialEq, Eq, Structural)]
pub enum InputDirection {
    Up,
    Down,
    Left,
    Right,
}

#[derive(Clone, Copy, Debug, PartialEq, Eq, Structural)]
pub enum InputEvent {
    SwitchButtonPressed(u8),
    SwitchButtonHeld(u8),
    SwitchButtonReleased(u8),
    DirectionButtonPressed(InputDirection),
    DirectionButtonHeld(InputDirection),
    DirectionButtonReleased(InputDirection),
}

/// What happened to one button in one sample.
#[derive(Clone, Copy, Debug, PartialEq, Eq, Structural)]
pub enum ButtonEdge {
    Nothing,
    Pressed,
    Held,
    Released,
}

/// Per-button counters: how many samples the button has been seen held, and
/// how many samples of debouncing remain.
pub struct BoardInput {
    held_cycles: [u8; 12],
    debounce_cycles: [u8; 12],
}

/// The direction button with index 8 to 11.
pub open spec fn direction_of(index: int) -> InputDirection {
    if index == 8 {
        InputDirection::Up
    } else if index == 9 {
        InputDirection::Down
    } else if index == 10 {
        InputDirection::Left
    } else {
        InputDirection::Right
    }
}

/// The event reported for `edge` on button `index`.
pub open spec fn event_of(edge: ButtonEdge, index: int) -> InputEvent {
    match edge {
        ButtonEdge::Held => if index <= 7 {
            InputEvent::SwitchButtonHeld(index as u8)
        } else {
            InputEvent::DirectionButtonHeld(direction_of(index))
        },
        ButtonEdge::Released => if index <= 7 {
            InputEvent::SwitchButtonReleased(index as u8)
        } else {
            InputEvent::DirectionButtonReleased(direction_of(index))
        },
        _ => if index <= 7 {
            InputEvent::SwitchButtonPressed(index as u8)
        } else {
            InputEvent::DirectionButtonPressed(direction_of(index))
        },
    }
}

/// One sample of one button: its new held and debounce counters and what
/// happened. A button reads low when pressed. Only samples reading low
/// change anything: while debouncing they count the debounce down and, if
/// the button had been held, end the hold; otherwise they count the hold up
/// (wrapping at 256), reporting a press on the first sample and a hold on
/// the twentieth.
pub open spec fn button_step(held: u8, debounce: u8, low: bool) -> (u8, u8, ButtonEdge) {
    if !low {
        (held, debounce, ButtonEdge::Nothing)
    } else if debounce == 0 {
        let h = ((held + 1) % 256) as u8;
        (h, debounce, if h == PRESS_CYCLES {
            ButtonEdge::Pressed
        } else if h == HOLD_CYCLES {
            ButtonEdge::Held
        } else {
            ButtonEdge::Nothing
        })
    } else if held > 0 {
        (0, DEBOUNCE_CYCLES, ButtonEdge::Released)
    } else {
        (held, (debounce - 1) as u8, ButtonEdge::Nothing)
    }
}

/// Samples buttons `i..12` in order, stopping at the first that reports an
/// event: the resulting counters and the event.
pub open spec fn scan(held: Seq<u8>, debounce: Seq<u8>, low: Seq<bool>, i: int) -> (Seq<u8>, Seq<u8>, Option<InputEvent>)
    decreases 12 - i,
{
    if i >= 12 || i < 0 {
        (held, debounce, None)
    } else {
        let (h, d, edge) = button_step(held[i], debounce[i], low[i]);
        let held2 = held.update(i, h);
        let debounce2 = debounce.update(i, d);
        if edge != ButtonEdge::Nothing {
            (held2, debounce2, Some(event_of(edge, i)))
        } else {
            scan(held2, debounce2, low, i + 1)
        }
    }
}

impl BoardInput {
    pub closed spec fn held(self) -> Seq<u8> {
        self.held_cycles@
    }

    pub closed spec fn debounce(self) -> Seq<u8> {
        self.debounce_cycles@
    }

    pub fn new() -> (r: Self)
        ensures
            r.held() == Seq::new(12, |i: int| 0u8),
            r.debounce() == Seq::new(12, |i: int| 0u8),
    {
        let r = BoardInput { held_cycles: [0u8; 12], debounce_cycles: [0u8; 12] };
        assert(r.held() =~= Seq::new(12, |i: int| 0u8));
        assert(r.debounce() =~= Seq::new(12, |i: int| 0u8));
        r
    }

    pub fn index_to_hold_event(index: usize) -> (r: InputEvent)
        requires
            index < NUM_BUTTONS,
        ensures
            r == event_of(ButtonEdge::Held, index as int),
    {
        if index <= 7 {
            InputEvent::SwitchButtonHeld(index as u8)
        } else if index == 8 {
            InputEvent::DirectionButtonHeld(InputDirection::Up)
        } else if index == 9 {
            InputEvent::DirectionButtonHeld(InputDirection::Down)
        } else if index == 10 {
            InputEvent::DirectionButtonHeld(InputDirection::Left)
        } else {
            InputEvent::DirectionButtonHeld(InputDirection::Right)
        }
    }

    pub fn index_to_press_event(index: usize) -> (r: InputEvent)
        requires
            index < NUM_BUTTONS,
        ensures
            r == event_of(ButtonEdge::Pressed, index as int),
    {
        if index <= 7 {
            InputEvent::SwitchButtonPressed(index as u8)
        } else if index == 8 {
            InputEvent::DirectionButtonPressed(InputDirection::Up)
        } else if index == 9 {
            InputEvent::DirectionButtonPressed(InputDirection::Down)
        } else if index == 10 {
            InputEvent::DirectionButtonPressed(InputDirection::Left)
        } else {
            InputEvent::DirectionButtonPressed(InputDirection::Right)
        }
    }

    pub fn index_to_release_event(index: usize) -> (r: InputEvent)
        requires
            index < NUM_BUTTONS,
        ensures
            r == event_of(ButtonEdge::Released, index as int),
    {
        if index <= 7 {
            InputEvent::SwitchButtonReleased(index as u8)
        } else if index == 8 {
            InputEvent::DirectionButtonReleased(InputDirection::Up)
        } else if index == 9 {
            InputEvent::DirectionButtonReleased(InputDirection::Down)
        } else if index == 10 {
            InputEvent::DirectionButtonReleased(InputDirection::Left)
        } else {
            InputEvent::DirectionButtonReleased(InputDirection::Right)
        }
    }

    /// Takes one sample of all buttons (`low[i]` when button `i` reads low)
    /// and reports the first event, in button order.
    pub fn update(&mut self, low: [bool; 12]) -> (r: Option<InputEvent>)
        ensures
            ({
                let (h, d, e) = scan(old(self).held(), old(self).debounce(), low@, 0);
                &&& final(self).held() == h
                &&& final(self).debounce() == d
                &&& r == e
            }),
    {
        let mut i: usize = 0;
        while i < NUM_BUTTONS
            invariant
                0 <= i <= NUM_BUTTONS,
                self.held().len() == 12,
                self.debounce().len() == 12,
                scan(self.held(), self.debounce(), low@, i as int) == scan(
                    old(self).held(),
                    old(self).debounce(),
                    low@,
                    0,
                ),
            decreases NUM_BUTTONS - i,
        {
            let ghost h0 = self.held();
            let ghost d0 = self.debounce();
            let ghost step = button_step(h0[i as int], d0[i as int], low@[i as int]);
            if low[i] {
                let mut pressed = true;
                if self.debounce_cycles[i] > 0 {
                    self.debounce_cycles[i] = self.debounce_cycles[i] - 1;
                    pressed = false;
                }
                if pressed {
                    self.held_cycles[i] = self.held_cycles[i].wrapping_add(1);
                    if self.held_cycles[i] == PRESS_CYCLES {
                        return Some(Self::index_to_press_event(i));
                    } else if self.held_cycles[i] == HOLD_CYCLES {
                        return Some(Self::index_to_hold_event(i));
                    }
                } else if self.held_cycles[i] > 0 {
                    self.debounce_cycles[i] = DEBOUNCE_CYCLES;
                    self.held_cycles[i] = 0;
                    return Some(Self::index_to_release_event(i));
                }
            }
            proof {
                assert(self.held() =~= h0.update(i as int, step.0));
                assert(self.debounce() =~= d0.update(i as int, step.1));
            }
            i += 1;
        }
        None
    }
}

/// While no button is debouncing (as after `new`), a sample leaves every
/// debounce counter at zero and never reports a release.
pub proof fn lemma_no_release(held: Seq<u8>, debounce: Seq<u8>, low: Seq<bool>, i: int)
    requires
        0 <= i <= 12,
        held.len() == 12,
        debounce.len() == 12,
        forall|k: int| 0 <= k < 12 ==> debounce[k] == 0,
    ensures
        forall|k: int| 0 <= k < 12 ==> #[trigger] scan(held, debounce, low, i).1[k] == 0,
        !(scan(held, debounce, low, i).2 matches Some(InputEvent::SwitchButtonReleased(_))),
        !(scan(held, debounce, low, i).2 matches Some(InputEvent::DirectionButtonReleased(_))),
    decreases 12 - i,
{
    if i < 12 {
        let (h, d, edge) = button_step(held[i], debounce[i], low[i]);
        if edge == ButtonEdge::Nothing {
            lemma_no_release(held.update(i, h), debounce.update(i, d), low, i + 1);
        }
    }
}

/// The button an event is about: switch buttons 0 to 7, then the direction
/// buttons up, down, left and right as 8 to 11.
pub open spec fn event_button(e: InputEvent) -> int {
    match e {
        InputEvent::SwitchButtonPressed(i) => i as int,
        InputEvent::SwitchButtonHeld(i) => i as int,
        InputEvent::SwitchButtonReleased(i) => i as int,
        InputEvent::DirectionButtonPressed(d) => direction_button(d),
        InputEvent::DirectionButtonHeld(d) => direction_button(d),
        InputEvent::DirectionButtonReleased(d) => direction_button(d),
    }
}

pub open spec fn direction_button(d: InputDirection) -> int {
    match d {
        InputDirection::Up => 8,
        InputDirection::Down => 9,
        InputDirection::Left => 10,
        InputDirection::Right => 11,
    }
}

/// What an event says happened to its button.
pub open spec fn event_edge(e: InputEvent) -> ButtonEdge {
    match e {
        InputEvent::SwitchButtonPressed(_) | InputEvent::DirectionButtonPressed(_) => ButtonEdge::Pressed,
        InputEvent::SwitchButtonHeld(_) | InputEvent::DirectionButtonHeld(_) => ButtonEdge::Held,
        _ => ButtonEdge::Released,
    }
}

/// Every event names the button it happened to and what happened: a press,
/// hold or release of button `index` is reported as exactly that, so no two
/// buttons, and no two kinds of edge, share an event.
pub proof fn lemma_event_names_button(edge: ButtonEdge, index: int, edge2: ButtonEdge, index2: int)
    requires
        0 <= index < 12,
        0 <= index2 < 12,
        edge != ButtonEdge::Nothing,
        edge2 != ButtonEdge::Nothing,
    ensures
        event_button(event_of(edge, index)) == index,
        event_edge(event_of(edge, index)) == edge,
        (index <= 7) == (event_of(edge, index) is SwitchButtonPressed || event_of(edge, index) is SwitchButtonHeld
            || event_of(edge, index) is SwitchButtonReleased),
        event_of(edge, index) == event_of(edge2, index2) ==> edge == edge2 && index == index2,
{
}

/// Samples of buttons not reading low leave their counters as they were and
/// report nothing.
proof fn lemma_scan_skips_released(held: Seq<u8>, debounce: Seq<u8>, low: Seq<bool>, i: int, j: int)
    requires
        0 <= i <= j <= 12,
        held.len() == 12,
        debounce.len() == 12,
        low.len() == 12,
        forall|k: int| i <= k < j ==> !#[trigger] low[k],
    ensures
        scan(held, debounce, low, i) == scan(held, debounce, low, j),
    decreases j - i,
{
    if i < j {
        assert(held.update(i, held[i]) =~= held);
        assert(debounce.update(i, debounce[i]) =~= debounce);
        lemma_scan_skips_released(held, debounce, low, i + 1, j);
    }
}

/// From rest (as after `new`), a sample in which only button `i` reads low
/// reports a press of button `i`, whichever button it is.
pub proof fn lemma_lone_press(low: Seq<bool>, i: int)
    requires
        0 <= i < 12,
        low.len() == 12,
        forall|k: int| 0 <= k < 12 ==> #[trigger] low[k] == (k == i),
    ensures
        scan(Seq::new(12, |k: int| 0u8), Seq::new(12, |k: int| 0u8), low, 0).2 matches Some(e)
            && event_button(e) == i && event_edge(e) == ButtonEdge::Pressed,
        i <= 7 ==> scan(Seq::new(12, |k: int| 0u8), Seq::new(12, |k: int| 0u8), low, 0).2
            == Some(InputEvent::SwitchButtonPressed(i as u8)),
{
    let z = Seq::new(12, |k: int| 0u8);
    lemma_scan_skips_released(z, z, low, 0, i);
    assert(low[i]);
    assert(z[i] == 0u8);
    lemma_event_names_button(ButtonEdge::Pressed, i, ButtonEdge::Pressed, i);
}

} // verus!
