//! The menu: up and down choose a game, right starts it. While no game is
//! chosen a small snake crawls over the segments of the digits, eating the
//! food (decimal points) that appears now and then.
use vstd::prelude::*;

use crate::bounded::{neighbor_list, neighbors_new, neighbors_push, neighbors_slice, snake_clear, snake_get, snake_len, snake_list, snake_new, snake_pop_back, snake_push_back, snake_push_front, step_list, steps_new, steps_push, steps_set, steps_slice, train_list, trains_slice};
use crate::cargo::{Cargo, LedPattern};
use crate::game_state::{
    after_arrival, after_spawn, new_train, platforms_after_init, trains_after_init, DisplayState,
    GameState, SpawnKind,
};
use crate::input::{InputDirection, InputEvent};
use crate::modes::{mode_names, GameMode, GameModeHandler, NUM_MODES};
use crate::random::{first_below, range_draw, rejection_limit, Rand, RngState};
use crate::segments::segment_bits;
use crate::train::DEFAULT_SPEED;

verus! {

/// Ticks without input before the menu goes back to the snake.
pub const IDLE_CYCLES: u16 = 400;

/// The longest the snake gets.
pub const SNAKE_LENGTH: usize = 6;

/// Ticks between two moves of the snake.
pub const SNAKE_PERIOD: u8 = 15;

/// At most three segments follow a segment.
pub const MAX_NEXT_SEGMENTS: usize = 3;

/// A segment of one digit (its stroke bit).
#[derive(Clone, Copy, Debug, PartialEq, Eq, Structural)]
pub struct SnakeLocation {
    pub digit: u8,
    pub segment: u8,
}

impl SnakeLocation {
    pub fn new(digit: u8, segment: u8) -> (r: Self)
        ensures
            r == (SnakeLocation { digit, segment }),
    {
        SnakeLocation { digit, segment }
    }

    /// A stroke (A to G) of one of the three digits.
    pub open spec fn wf(self) -> bool {
        &&& self.digit < 3
        &&& is_stroke(self.segment)
    }
}

/// The stroke bits: A 0x40, B 0x20, C 0x10, D 0x08, E 0x04, F 0x02, G 0x01.
pub open spec fn is_stroke(s: u8) -> bool {
    s == 0x40 || s == 0x20 || s == 0x10 || s == 0x08 || s == 0x04 || s == 0x02 || s == 0x01
}

pub open spec fn sl(digit: int, segment: u8) -> SnakeLocation {
    SnakeLocation { digit: digit as u8, segment }
}

/// `x` when `b`, else nothing.
pub open spec fn opt(b: bool, x: (SnakeLocation, bool)) -> Seq<(SnakeLocation, bool)> {
    if b { seq![x] } else { Seq::empty() }
}

/// The segments the snake can move to from `l` when heading `dir` (true:
/// rightward or upward along the stroke order), each with the heading after.
pub open spec fn next_segments(l: SnakeLocation, dir: bool) -> Seq<(SnakeLocation, bool)> {
    let d = l.digit as int;
    let up = d < 2;
    let down = d > 0;
    if dir {
        if l.segment == 0x40 {
            opt(up, (sl(d + 1, 0x40), true)) + seq![(sl(d, 0x20), false)]
        } else if l.segment == 0x20 {
            opt(up, (sl(d + 1, 0x40), true)) + seq![(sl(d, 0x40), false)]
        } else if l.segment == 0x10 {
            opt(up, (sl(d + 1, 0x01), true)) + seq![(sl(d, 0x01), false), (sl(d, 0x20), true)]
        } else if l.segment == 0x08 {
            opt(up, (sl(d + 1, 0x08), true)) + seq![(sl(d, 0x10), true)]
        } else if l.segment == 0x04 {
            opt(down, (sl(d - 1, 0x01), false)) + seq![(sl(d, 0x02), true), (sl(d, 0x01), true)]
        } else if l.segment == 0x02 {
            opt(down, (sl(d - 1, 0x40), false)) + seq![(sl(d, 0x40), true)]
        } else {
            opt(up, (sl(d + 1, 0x01), true)) + seq![(sl(d, 0x20), true), (sl(d, 0x10), false)]
        }
    } else {
        if l.segment == 0x40 {
            opt(down, (sl(d - 1, 0x40), false)) + seq![(sl(d, 0x02), false)]
        } else if l.segment == 0x20 {
            opt(up, (sl(d + 1, 0x01), true)) + seq![(sl(d, 0x01), false), (sl(d, 0x10), false)]
        } else if l.segment == 0x10 {
            opt(up, (sl(d + 1, 0x08), true)) + seq![(sl(d, 0x08), false)]
        } else if l.segment == 0x08 {
            opt(down, (sl(d - 1, 0x08), false)) + seq![(sl(d, 0x04), true)]
        } else if l.segment == 0x04 {
            opt(down, (sl(d - 1, 0x08), false)) + seq![(sl(d, 0x08), true)]
        } else if l.segment == 0x02 {
            opt(down, (sl(d - 1, 0x01), false)) + seq![(sl(d, 0x01), true), (sl(d, 0x04), false)]
        } else {
            opt(down, (sl(d - 1, 0x01), false)) + seq![(sl(d, 0x02), true), (sl(d, 0x04), false)]
        }
    }
}

/// Some segment of the snake is stroke `segment` of digit `digit`.
pub open spec fn occupied(segs: Seq<SnakeLocation>, digit: int, segment: u8) -> bool {
    exists|i: int| 0 <= i < segs.len() && #[trigger] segs[i] == sl(digit, segment)
}

/// Whether the snake `segs` may move from `f` (heading `dir`) to `t`: not
/// onto itself, and not through itself where the move passes a corner the
/// snake surrounds.
pub open spec fn valid_movement(segs: Seq<SnakeLocation>, f: SnakeLocation, dir: bool, t: SnakeLocation) -> bool {
    let fd = f.digit as int;
    let td = t.digit as int;
    let occ = |d: int, s: u8| occupied(segs, d, s);
    if occupied(segs, td, t.segment) {
        false
    } else if f.segment == 0x20 && dir && t.segment == 0x40 && fd < 2 && fd + 1 == td {
        !(occ(fd, 0x40) && occ(td, 0x02))
    } else if ((f.segment == 0x20 && !dir && t.segment == 0x10) || (f.segment == 0x10 && dir && t.segment == 0x20)) && fd < 2 && fd == td {
        !occ(fd, 0x01) && (occ(fd + 1, 0x02) || occ(fd + 1, 0x01) || occ(fd + 1, 0x04))
    } else if ((f.segment == 0x20 && !dir && t.segment == 0x01) || (f.segment == 0x10 && dir && t.segment == 0x01)) && fd < 2 && fd + 1 == td {
        !occ(fd, 0x01) && (occ(td, 0x02) || occ(td, 0x04))
    } else if f.segment == 0x10 && !dir && t.segment == 0x08 && fd < 2 && fd + 1 == td {
        !(occ(fd, 0x08) && occ(td, 0x04))
    } else if f.segment == 0x04 && !dir && t.segment == 0x08 && fd > 0 && fd == td + 1 {
        !(occ(fd, 0x08) && occ(td, 0x10))
    } else if f.segment == 0x04 && dir && t.segment == 0x02 && fd > 0 && fd + 1 == td {
        !((occ(fd, 0x01) && occ(td, 0x20)) || (occ(fd, 0x10) && occ(td, 0x08)))
    } else if ((f.segment == 0x04 && dir && t.segment == 0x02) || (f.segment == 0x02 && !dir && t.segment == 0x04)) && fd > 0 && fd == td {
        !occ(fd, 0x01) && (occ(fd - 1, 0x20) || occ(fd - 1, 0x01) || occ(fd - 1, 0x10))
    } else if ((f.segment == 0x04 && dir && t.segment == 0x01) || (f.segment == 0x02 && !dir && t.segment == 0x01)) && fd > 0 && fd == td + 1 {
        !occ(fd, 0x01) && (occ(td, 0x20) || occ(td, 0x10))
    } else if f.segment == 0x02 && dir && t.segment == 0x40 && fd > 0 && fd == td + 1 {
        !(occ(fd, 0x40) && occ(td, 0x20))
    } else if f.segment == 0x01 && !dir && t.segment == 0x01 && fd > 0 && fd == td + 1 {
        !((occ(fd, 0x04) && occ(fd, 0x02)) || (occ(td, 0x20) && occ(td, 0x10)))
    } else if f.segment == 0x01 && dir && t.segment == 0x01 && fd < 2 && fd + 1 == td {
        !((occ(fd, 0x20) && occ(fd, 0x10)) || (occ(td, 0x04) && occ(td, 0x02)))
    } else {
        true
    }
}

pub struct MenuMode {
    /// Ticks since the last input (while a game is shown).
    pub counter: u16,
    /// The game shown (0: the snake).
    pub index: usize,
    pub snake_grow: bool,
    pub snake_counter: u8,
    /// Grows every move; at a threshold that falls with the length the
    /// snake loses its tail.
    pub snake_hunger: u8,
    pub snake_direction: bool,
    /// The snake, head first.
    pub snake_segments: heapless::Deque<SnakeLocation, SNAKE_LENGTH>,
    /// One bit per digit whose decimal point holds food.
    pub snake_food: u8,
}

impl Default for MenuMode {
    fn default() -> (r: Self)
        ensures
            r.counter == 0,
            r.index == 0,
            !r.snake_grow,
            r.snake_counter == 0,
            r.snake_hunger == 0,
            !r.snake_direction,
            snake_list(r.snake_segments).len() == 0,
            r.snake_food == 0,
    {
        MenuMode {
            counter: 0,
            index: 0,
            snake_grow: false,
            snake_counter: 0,
            snake_hunger: 0,
            snake_direction: false,
            snake_segments: snake_new(),
            snake_food: 0,
        }
    }
}

impl MenuMode {
    /// The segments the snake can move to from `location` when heading
    /// `direction`, each with the heading after the move.
    pub fn next_segment_locations(location: &SnakeLocation, direction: bool) -> (r: heapless::Vec<(SnakeLocation, bool), MAX_NEXT_SEGMENTS>)
        requires
            is_stroke(location.segment),
        ensures
            step_list(r) == next_segments(*location, direction),
            step_list(r).len() <= MAX_NEXT_SEGMENTS,
    {
        let s = segment_bits();
        let d = location.digit;
        let seg = location.segment;
        let mut next = steps_new();
        if direction {
            if seg == s.a {
                if d < 2 {
                    let _ = steps_push(&mut next, (SnakeLocation::new(d + 1, s.a), true));
                }
                let _ = steps_push(&mut next, (SnakeLocation::new(d, s.b), false));
            } else if seg == s.b {
                if d < 2 {
                    let _ = steps_push(&mut next, (SnakeLocation::new(d + 1, s.a), true));
                }
                let _ = steps_push(&mut next, (SnakeLocation::new(d, s.a), false));
            } else if seg == s.c {
                if d < 2 {
                    let _ = steps_push(&mut next, (SnakeLocation::new(d + 1, s.g), true));
                }
                let _ = steps_push(&mut next, (SnakeLocation::new(d, s.g), false));
                let _ = steps_push(&mut next, (SnakeLocation::new(d, s.b), true));
            } else if seg == s.d {
                if d < 2 {
                    let _ = steps_push(&mut next, (SnakeLocation::new(d + 1, s.d), true));
                }
                let _ = steps_push(&mut next, (SnakeLocation::new(d, s.c), true));
            } else if seg == s.e {
                if d > 0 {
                    let _ = steps_push(&mut next, (SnakeLocation::new(d - 1, s.g), false));
                }
                let _ = steps_push(&mut next, (SnakeLocation::new(d, s.f), true));
                let _ = steps_push(&mut next, (SnakeLocation::new(d, s.g), true));
            } else if seg == s.f {
                if d > 0 {
                    let _ = steps_push(&mut next, (SnakeLocation::new(d - 1, s.a), false));
                }
                let _ = steps_push(&mut next, (SnakeLocation::new(d, s.a), true));
            } else {
                if d < 2 {
                    let _ = steps_push(&mut next, (SnakeLocation::new(d + 1, s.g), true));
                }
                let _ = steps_push(&mut next, (SnakeLocation::new(d, s.b), true));
                let _ = steps_push(&mut next, (SnakeLocation::new(d, s.c), false));
            }
        } else {
            if seg == s.a {
                if d > 0 {
                    let _ = steps_push(&mut next, (SnakeLocation::new(d - 1, s.a), false));
                }
                let _ = steps_push(&mut next, (SnakeLocation::new(d, s.f), false));
            } else if seg == s.b {
                if d < 2 {
                    let _ = steps_push(&mut next, (SnakeLocation::new(d + 1, s.g), true));
                }
                let _ = steps_push(&mut next, (SnakeLocation::new(d, s.g), false));
                let _ = steps_push(&mut next, (SnakeLocation::new(d, s.c), false));
            } else if seg == s.c {
                if d < 2 {
                    let _ = steps_push(&mut next, (SnakeLocation::new(d + 1, s.d), true));
                }
                let _ = steps_push(&mut next, (SnakeLocation::new(d, s.d), false));
            } else if seg == s.d {
                if d > 0 {
                    let _ = steps_push(&mut next, (SnakeLocation::new(d - 1, s.d), false));
                }
                let _ = steps_push(&mut next, (SnakeLocation::new(d, s.e), true));
            } else if seg == s.e {
                if d > 0 {
                    let _ = steps_push(&mut next, (SnakeLocation::new(d - 1, s.d), false));
                }
                let _ = steps_push(&mut next, (SnakeLocation::new(d, s.d), true));
            } else if seg == s.f {
                if d > 0 {
                    let _ = steps_push(&mut next, (SnakeLocation::new(d - 1, s.g), false));
                }
                let _ = steps_push(&mut next, (SnakeLocation::new(d, s.g), true));
                let _ = steps_push(&mut next, (SnakeLocation::new(d, s.e), false));
            } else {
                if d > 0 {
                    let _ = steps_push(&mut next, (SnakeLocation::new(d - 1, s.g), false));
                }
                let _ = steps_push(&mut next, (SnakeLocation::new(d, s.f), true));
                let _ = steps_push(&mut next, (SnakeLocation::new(d, s.e), false));
            }
        }
        proof {
            assert(step_list(next) =~= next_segments(*location, direction));
        }
        next
    }

    /// Whether a segment of the snake is at `loc`.
    pub fn is_occupied(&self, loc: &SnakeLocation) -> (r: bool)
        ensures
            r == occupied(snake_list(self.snake_segments), loc.digit as int, loc.segment),
    {
        let mut i: usize = 0;
        while i < snake_len(&self.snake_segments)
            invariant
                0 <= i <= snake_list(self.snake_segments).len(),
                forall|j: int| 0 <= j < i ==> #[trigger] snake_list(self.snake_segments)[j] != sl(loc.digit as int, loc.segment),
            decreases snake_list(self.snake_segments).len() - i,
        {
            let s = snake_get(&self.snake_segments, i).unwrap();
            if s.digit == loc.digit && s.segment == loc.segment {
                return true;
            }
            i += 1;
        }
        false
    }

    fn occupied_at(&self, digit: u8, segment: u8) -> (r: bool)
        ensures
            r == occupied(snake_list(self.snake_segments), digit as int, segment),
    {
        self.is_occupied(&SnakeLocation::new(digit, segment))
    }

    /// Whether the snake may move from `from` (heading `direction`) to `to`:
    /// not onto itself, nor through itself around a corner it surrounds.
    pub fn is_valid_movement(&self, from: &SnakeLocation, direction: bool, to: &SnakeLocation) -> (r: bool)
        requires
            from.wf(),
            to.wf(),
        ensures
            r == valid_movement(snake_list(self.snake_segments), *from, direction, *to),
    {
        let s = segment_bits();
        let fd = from.digit;
        let td = to.digit;
        let fs = from.segment;
        let ts = to.segment;
        if self.is_occupied(to) {
            return false;
        }
        if fs == s.b && direction && ts == s.a && fd < 2 && fd + 1 == td {
            !(self.occupied_at(fd, s.a) && self.occupied_at(td, s.f))
        } else if ((fs == s.b && !direction && ts == s.c) || (fs == s.c && direction && ts == s.b)) && fd < 2 && fd == td {
            !self.occupied_at(fd, s.g) && (self.occupied_at(fd + 1, s.f) || self.occupied_at(fd + 1, s.g) || self.occupied_at(fd + 1, s.e))
        } else if ((fs == s.b && !direction && ts == s.g) || (fs == s.c && direction && ts == s.g)) && fd < 2 && fd + 1 == td {
            !self.occupied_at(fd, s.g) && (self.occupied_at(td, s.f) || self.occupied_at(td, s.e))
        } else if fs == s.c && !direction && ts == s.d && fd < 2 && fd + 1 == td {
            !(self.occupied_at(fd, s.d) && self.occupied_at(td, s.e))
        } else if fs == s.e && !direction && ts == s.d && fd > 0 && fd == td + 1 {
            !(self.occupied_at(fd, s.d) && self.occupied_at(td, s.c))
        } else if fs == s.e && direction && ts == s.f && fd > 0 && fd + 1 == td {
            !((self.occupied_at(fd, s.g) && self.occupied_at(td, s.b)) || (self.occupied_at(fd, s.c) && self.occupied_at(td, s.d)))
        } else if ((fs == s.e && direction && ts == s.f) || (fs == s.f && !direction && ts == s.e)) && fd > 0 && fd == td {
            !self.occupied_at(fd, s.g) && (self.occupied_at(fd - 1, s.b) || self.occupied_at(fd - 1, s.g) || self.occupied_at(fd - 1, s.c))
        } else if ((fs == s.e && direction && ts == s.g) || (fs == s.f && !direction && ts == s.g)) && fd > 0 && fd == td + 1 {
            !self.occupied_at(fd, s.g) && (self.occupied_at(td, s.b) || self.occupied_at(td, s.c))
        } else if fs == s.f && direction && ts == s.a && fd > 0 && fd == td + 1 {
            !(self.occupied_at(fd, s.a) && self.occupied_at(td, s.b))
        } else if fs == s.g && !direction && ts == s.g && fd > 0 && fd == td + 1 {
            !((self.occupied_at(fd, s.e) && self.occupied_at(fd, s.f)) || (self.occupied_at(td, s.b) && self.occupied_at(td, s.c)))
        } else if fs == s.g && direction && ts == s.g && fd < 2 && fd + 1 == td {
            !((self.occupied_at(fd, s.b) && self.occupied_at(fd, s.c)) || (self.occupied_at(td, s.e) && self.occupied_at(td, s.f)))
        } else {
            true
        }
    }

    /// Shuffles `vec` (Fisher-Yates, from the back).
    pub fn shuffle(vec: &mut heapless::Vec<(SnakeLocation, bool), MAX_NEXT_SEGMENTS>, rand: &mut Rand)
        requires
            step_list(*old(vec)).len() <= MAX_NEXT_SEGMENTS,
            old(rand).wf(),
        ensures
            final(rand).wf(),
            (step_list(*final(vec)), final(rand).state) == shuffled(step_list(*old(vec)), step_list(*old(vec)).len() - 1, old(rand).state),
            step_list(*final(vec)).len() == step_list(*old(vec)).len(),
            (forall|k: int| 0 <= k < step_list(*old(vec)).len() ==> (#[trigger] step_list(*old(vec))[k]).0.wf()) ==> forall|k: int| 0 <= k < step_list(*final(vec)).len() ==> (#[trigger] step_list(*final(vec))[k]).0.wf(),
    {
        let len = steps_slice(vec).len();
        let mut i: usize = len;
        while i > 1
            invariant
                i <= len,
                len == step_list(*old(vec)).len(),
                len <= MAX_NEXT_SEGMENTS,
                step_list(*vec).len() == len,
                rand.wf(),
                shuffled(step_list(*vec), i - 1, rand.state) == shuffled(step_list(*old(vec)), len - 1, old(rand).state),
                (forall|k: int| 0 <= k < len ==> (#[trigger] step_list(*old(vec))[k]).0.wf()) ==> forall|k: int| 0 <= k < len ==> (#[trigger] step_list(*vec)[k]).0.wf(),
            decreases i,
        {
            i = i - 1;
            let j = rand.from_range(0, i as u8) as usize;
            let a = steps_slice(vec)[i];
            let b = steps_slice(vec)[j];
            let ghost before = step_list(*vec);
            steps_set(vec, i, b);
            steps_set(vec, j, a);
            proof {
                assert(step_list(*vec) =~= swapped(before, i as int, j as int));
            }
        }
    }

    /// A path of `path_left` moves from `loc` (heading `dir`) that the snake
    /// may take, tried in random order: the first move of the first such path
    /// found and the heading after it.
    pub fn find_path(&self, loc: &SnakeLocation, dir: bool, path_left: u8, rand: &mut Rand) -> (r: Option<(SnakeLocation, bool)>)
        requires
            loc.wf(),
            old(rand).wf(),
        ensures
            final(rand).wf(),
            (r, final(rand).state) == path_from(snake_list(self.snake_segments), *loc, dir, path_left as nat, old(rand).state),
            r matches Some(p) ==> p.0.wf(),
        decreases path_left,
    {
        if path_left == 0 {
            return Some((*loc, false));
        }
        let mut next = Self::next_segment_locations(loc, dir);
        proof {
            lemma_next_segments_wf(*loc, dir);
        }
        Self::shuffle(&mut next, rand);
        let ghost cands = step_list(next);
        let ghost s1 = rand.state;
        let mut i: usize = 0;
        while i < steps_slice(&next).len()
            invariant
                0 <= i <= step_list(next).len(),
                step_list(next) == cands,
                path_left > 0,
                loc.wf(),
                rand.wf(),
                forall|k: int| 0 <= k < cands.len() ==> (#[trigger] cands[k]).0.wf(),
                try_candidates(snake_list(self.snake_segments), *loc, dir, cands, 0, path_left as nat, s1)
                    == try_candidates(snake_list(self.snake_segments), *loc, dir, cands, i as int, path_left as nat, rand.state),
                path_from(snake_list(self.snake_segments), *loc, dir, path_left as nat, old(rand).state)
                    == try_candidates(snake_list(self.snake_segments), *loc, dir, cands, 0, path_left as nat, s1),
            decreases step_list(next).len() - i,
        {
            let (next_loc, next_dir) = steps_slice(&next)[i];
            if self.is_valid_movement(loc, dir, &next_loc) {
                if self.find_path(&next_loc, next_dir, path_left - 1, rand).is_some() {
                    return Some((next_loc, next_dir));
                }
            }
            i += 1;
        }
        None
    }

    /// Eats the food at the head: moving down out of stroke C or right
    /// along stroke D eats the food of the head's digit, moving left along D
    /// that of the digit before; the snake then grows on its next move.
    pub fn snake_eat(&mut self)
        requires
            forall|k: int| 0 <= k < snake_list(old(self).snake_segments).len() ==> (#[trigger] snake_list(old(self).snake_segments)[k]).wf(),
        ensures
            ({
                let (food, ate) = eaten(snake_list(old(self).snake_segments), old(self).snake_direction, old(self).snake_food);
                &&& final(self).snake_food == food
                &&& final(self).snake_grow == (old(self).snake_grow || ate)
            }),
            snake_list(final(self).snake_segments) == snake_list(old(self).snake_segments),
            final(self).counter == old(self).counter,
            final(self).index == old(self).index,
            final(self).snake_counter == old(self).snake_counter,
            final(self).snake_hunger == old(self).snake_hunger,
            final(self).snake_direction == old(self).snake_direction,
    {
        if snake_len(&self.snake_segments) > 0 {
            let s = segment_bits();
            let head = snake_get(&self.snake_segments, 0).unwrap();
            let head_digit = head.digit;
            let food_mask: u8 = 1u8 << head_digit;
            if ((head.segment == s.c && !self.snake_direction) || (head.segment == s.d && self.snake_direction))
                && (self.snake_food & food_mask) != 0 {
                self.snake_food = self.snake_food & !food_mask;
                self.snake_grow = true;
            } else if head.segment == s.d && !self.snake_direction && head_digit > 0
                && (self.snake_food & (food_mask >> 1u8)) != 0 {
                self.snake_food = self.snake_food & !(food_mask >> 1u8);
                self.snake_grow = true;
            }
        }
    }

    /// The first move of a path of three moves from `head`, else of two,
    /// else of one.
    fn search_path(&self, head: &SnakeLocation, rand: &mut Rand) -> (r: Option<(SnakeLocation, bool)>)
        requires
            head.wf(),
            old(rand).wf(),
        ensures
            final(rand).wf(),
            (r, final(rand).state) == slither_search(snake_list(self.snake_segments), *head, self.snake_direction, 3, old(rand).state),
            r matches Some(p) ==> p.0.wf(),
    {
        proof {
            reveal_with_fuel(slither_search, 4);
        }
        let found = self.find_path(head, self.snake_direction, 3, rand);
        if found.is_some() {
            return found;
        }
        let found = self.find_path(head, self.snake_direction, 2, rand);
        if found.is_some() {
            return found;
        }
        self.find_path(head, self.snake_direction, 1, rand)
    }

    /// Moves the snake along the longest path (of three, two or one moves)
    /// it finds; stuck, it stays. It grows instead of moving its tail when it
    /// has eaten and is not at full length.
    pub fn snake_slither(&mut self, rand: &mut Rand)
        requires
            old(self).snake_wf(),
            snake_list(old(self).snake_segments).len() > 0,
            old(rand).wf(),
        ensures
            final(self).snake_wf(),
            snake_list(final(self).snake_segments).len() > 0,
            final(rand).wf(),
            ({
                let (segs, dir, grow, st) = slithered(snake_list(old(self).snake_segments), old(self).snake_direction, old(self).snake_grow, old(rand).state);
                &&& snake_list(final(self).snake_segments) == segs
                &&& final(self).snake_direction == dir
                &&& final(self).snake_grow == grow
                &&& final(rand).state == st
            }),
            final(self).counter == old(self).counter,
            final(self).index == old(self).index,
            final(self).snake_counter == old(self).snake_counter,
            final(self).snake_hunger == old(self).snake_hunger,
            final(self).snake_food == old(self).snake_food,
    {
        let head = snake_get(&self.snake_segments, 0).unwrap();
        let new_head = self.search_path(&head, rand);
        match new_head {
            None => {},
            Some((next_loc, next_dir)) => {
                if !self.snake_grow || snake_len(&self.snake_segments) >= SNAKE_LENGTH {
                    let _ = snake_pop_back(&mut self.snake_segments);
                }
                self.snake_grow = false;
                self.snake_direction = next_dir;
                let _ = snake_push_front(&mut self.snake_segments, next_loc);
            },
        }
    }

    /// The digits showing the snake's strokes and, as decimal points, the food.
    pub fn snake_segment_data(&self) -> (r: [u8; 3])
        requires
            self.snake_wf(),
        ensures
            r == segment_data(snake_list(self.snake_segments), self.snake_food),
    {
        let mut data: [u8; 3] = [0u8, 0u8, 0u8];
        let mut i: usize = 0;
        while i < snake_len(&self.snake_segments)
            invariant
                0 <= i <= snake_list(self.snake_segments).len(),
                self.snake_wf(),
                forall|d: int| 0 <= d < 3 ==> #[trigger] data[d] == strokes(snake_list(self.snake_segments), i as int, d),
            decreases snake_list(self.snake_segments).len() - i,
        {
            let seg = snake_get(&self.snake_segments, i).unwrap();
            let d = seg.digit as usize;
            data[d] = data[d] | seg.segment;
            i += 1;
        }
        let dp = segment_bits().dp;
        let mut digit: u8 = 0;
        while digit < 3
            invariant
                0 <= digit <= 3,
                dp == 0x80u8,
                forall|d: int| 0 <= d < 3 ==> #[trigger] data[d] == if d < digit && self.snake_food & (1u8 << (d as u8)) != 0 {
                    strokes(snake_list(self.snake_segments), snake_list(self.snake_segments).len() as int, d) | 0x80u8
                } else {
                    strokes(snake_list(self.snake_segments), snake_list(self.snake_segments).len() as int, d)
                },
            decreases 3 - digit,
        {
            if (self.snake_food & (1u8 << digit)) != 0 {
                data[digit as usize] = data[digit as usize] | dp;
            }
            digit += 1;
        }
        proof {
            assert(data =~= segment_data(snake_list(self.snake_segments), self.snake_food));
        }
        data
    }

    /// Shows the next (`inc`) or previous game, skipping the snake; returns its name.
    pub fn next_game_mode(&mut self, inc: bool) -> (r: [u8; 3])
        requires
            old(self).index < NUM_MODES,
        ensures
            final(self).index == next_index(old(self).index, inc),
            r == mode_names(final(self).index),
            final(self).counter == old(self).counter,
            snake_list(final(self).snake_segments) == snake_list(old(self).snake_segments),
            final(self).snake_food == old(self).snake_food,
            final(self).snake_grow == old(self).snake_grow,
            final(self).snake_counter == old(self).snake_counter,
            final(self).snake_hunger == old(self).snake_hunger,
            final(self).snake_direction == old(self).snake_direction,
    {
        let delta: usize = if inc { 1 } else { NUM_MODES - 1 };
        self.index = (self.index + delta) % NUM_MODES;
        if self.index == 0 {
            self.index = if inc { 1 } else { NUM_MODES - 1 };
        }
        GameMode::mode_name(self.index)
    }

    /// The snake is at most six strokes long, all of them on the display.
    pub open spec fn snake_wf(&self) -> bool {
        &&& snake_list(self.snake_segments).len() <= SNAKE_LENGTH
        &&& forall|k: int| 0 <= k < snake_list(self.snake_segments).len() ==> (#[trigger] snake_list(self.snake_segments)[k]).wf()
    }
}

/// The menu entry after (`inc`) or before `index`, skipping the snake.
pub open spec fn next_index(index: usize, inc: bool) -> usize {
    let n = if inc { (index + 1) % 6 } else { (index + 5) % 6 };
    if n == 0 {
        if inc { 1 } else { 5 }
    } else {
        n as usize
    }
}

/// Browsing the menu never lands on the snake entry, and down then up (or
/// up then down) comes back to the same game.
pub proof fn lemma_menu_browse(index: usize)
    requires
        1 <= index < NUM_MODES,
    ensures
        1 <= next_index(index, true) < NUM_MODES,
        1 <= next_index(index, false) < NUM_MODES,
        next_index(next_index(index, true), false) == index,
        next_index(next_index(index, false), true) == index,
{
}

/// `v` with entries `i` and `j` swapped.
pub open spec fn swapped<T>(v: Seq<T>, i: int, j: int) -> Seq<T> {
    v.update(i, v[j]).update(j, v[i])
}

/// `v` shuffled from entry `i` down to entry 1, each swapped with an entry
/// drawn at random at or below it; the generator state after.
pub open spec fn shuffled(v: Seq<(SnakeLocation, bool)>, i: int, s: RngState) -> (Seq<(SnakeLocation, bool)>, RngState)
    decreases i,
{
    if i <= 0 {
        (v, s)
    } else {
        let (j, s1) = range_draw(s, 0, i as u8);
        shuffled(swapped(v, i, j as int), i - 1, s1)
    }
}

/// `find_path` from `loc` heading `dir` with `n` moves left: the first
/// move of a path found (or `loc` itself when no move is left), and the
/// generator state after.
pub open spec fn path_from(segs: Seq<SnakeLocation>, loc: SnakeLocation, dir: bool, n: nat, s: RngState) -> (Option<(SnakeLocation, bool)>, RngState)
    decreases n, 1int, 0int,
{
    if n == 0 {
        (Some((loc, false)), s)
    } else {
        let (cands, s1) = shuffled(next_segments(loc, dir), next_segments(loc, dir).len() - 1, s);
        try_candidates(segs, loc, dir, cands, 0, n, s1)
    }
}

/// The candidate moves from `i` on, tried in order: the first that is valid
/// and continues into a path of `n - 1` more moves.
pub open spec fn try_candidates(
    segs: Seq<SnakeLocation>,
    loc: SnakeLocation,
    dir: bool,
    cands: Seq<(SnakeLocation, bool)>,
    i: int,
    n: nat,
    s: RngState,
) -> (Option<(SnakeLocation, bool)>, RngState)
    decreases n, 0int, cands.len() - i,
{
    if i < 0 || i >= cands.len() || n == 0 {
        (None, s)
    } else if valid_movement(segs, loc, dir, cands[i].0) {
        let (r, s2) = path_from(segs, cands[i].0, cands[i].1, (n - 1) as nat, s);
        if r is Some {
            (Some(cands[i]), s2)
        } else {
            try_candidates(segs, loc, dir, cands, i + 1, n, s2)
        }
    } else {
        try_candidates(segs, loc, dir, cands, i + 1, n, s)
    }
}

/// The paths of `n`, then fewer, moves tried until one is found.
#[verifier::opaque]
pub open spec fn slither_search(segs: Seq<SnakeLocation>, head: SnakeLocation, dir: bool, n: nat, s: RngState) -> (Option<(SnakeLocation, bool)>, RngState)
    decreases n,
{
    if n == 0 {
        (None, s)
    } else {
        let (r, s1) = path_from(segs, head, dir, n, s);
        if r is Some {
            (r, s1)
        } else {
            slither_search(segs, head, dir, (n - 1) as nat, s1)
        }
    }
}

/// The snake after `snake_slither`: its strokes, heading, growth flag and
/// the generator state after.
pub open spec fn slithered(segs: Seq<SnakeLocation>, dir: bool, grow: bool, s: RngState) -> (Seq<SnakeLocation>, bool, bool, RngState) {
    let (r, s1) = slither_search(segs, segs[0], dir, 3, s);
    match r {
        None => (segs, dir, grow, s1),
        Some((next_loc, next_dir)) => {
            let kept = if !grow || segs.len() >= SNAKE_LENGTH { segs.drop_last() } else { segs };
            (seq![next_loc] + kept, next_dir, false, s1)
        },
    }
}

/// The food after the snake's head eats, and whether it ate.
pub open spec fn eaten(segs: Seq<SnakeLocation>, dir: bool, food: u8) -> (u8, bool) {
    if segs.len() == 0 {
        (food, false)
    } else {
        let h = segs[0];
        let mask = 1u8 << h.digit;
        if ((h.segment == 0x10 && !dir) || (h.segment == 0x08 && dir)) && food & mask != 0 {
            (food & !mask, true)
        } else if h.segment == 0x08 && !dir && h.digit > 0 && food & (mask >> 1u8) != 0 {
            (food & !(mask >> 1u8), true)
        } else {
            (food, false)
        }
    }
}

/// The strokes of digit `d` among the first `n` snake segments.
pub open spec fn strokes(segs: Seq<SnakeLocation>, n: int, d: int) -> u8
    decreases n,
{
    if n <= 0 {
        0
    } else if segs[n - 1].digit == d {
        strokes(segs, n - 1, d) | segs[n - 1].segment
    } else {
        strokes(segs, n - 1, d)
    }
}

/// The three digits: the snake's strokes, with the decimal point where food lies.
pub open spec fn segment_data(segs: Seq<SnakeLocation>, food: u8) -> [u8; 3] {
    let f = |d: int| if food & (1u8 << (d as u8)) != 0 {
        strokes(segs, segs.len() as int, d) | 0x80u8
    } else {
        strokes(segs, segs.len() as int, d)
    };
    [f(0), f(1), f(2)]
}

/// The moves from a stroke lead to strokes.
proof fn lemma_next_segments_wf(l: SnakeLocation, dir: bool)
    requires
        l.wf(),
    ensures
        forall|k: int| 0 <= k < next_segments(l, dir).len() ==> (#[trigger] next_segments(l, dir)[k]).0.wf(),
        next_segments(l, dir).len() <= MAX_NEXT_SEGMENTS,
{
}

/// The snake and food after the hunger of one move: a snake longer than one
/// stroke grows hungrier, and at the threshold (lower for a longer snake)
/// loses its tail.
pub open spec fn hungered(segs: Seq<SnakeLocation>, hunger: u8) -> (Seq<SnakeLocation>, u8) {
    if segs.len() > 1 {
        let h = (hunger + 1) as u8;
        if h >= 0xFFu8 >> ((segs.len() - 1) as u8) {
            (segs.drop_last(), 0)
        } else {
            (segs, h)
        }
    } else {
        (segs, hunger)
    }
}

/// Snake segment `s` is next to the food of digit `fd` (strokes C and D of
/// that digit, D of the next).
pub open spec fn near_food(s: SnakeLocation, fd: u8) -> bool {
    (s.digit == fd && (s.segment == 0x10 || s.segment == 0x08)) || (fd < 2 && s.digit == fd + 1 && s.segment == 0x08)
}

/// Stroke `x` is one of the strokes of `nl` (same digit and segment).
pub open spec fn listed(nl: Seq<SnakeLocation>, x: SnakeLocation) -> bool {
    exists|j: int| 0 <= j < nl.len() && (#[trigger] nl[j]).digit == x.digit && nl[j].segment == x.segment
}

/// How many of the first `n` segments are next to the food of digit `fd`.
pub open spec fn near_count(segs: Seq<SnakeLocation>, fd: u8, n: int) -> nat
    decreases n,
{
    if n <= 0 {
        0
    } else {
        near_count(segs, fd, n - 1) + if near_food(segs[n - 1], fd) { 1nat } else { 0nat }
    }
}

/// Food appearing: while not every digit has food, one chance in 101 per
/// tick that a random digit gets it, unless two snake strokes are next to it
/// or the head is on that digit. The food after, whether it appeared, and
/// the generator state after.
pub open spec fn food_spawned(segs: Seq<SnakeLocation>, food: u8, s: RngState) -> (u8, bool, RngState) {
    if food < 7 {
        let (v, s1) = range_draw(s, 0, 100);
        if v == 0 {
            let (fd, s2) = range_draw(s1, 0, 2);
            let placed = near_count(segs, fd, segs.len() as int) < 2 && !(segs.len() > 0 && segs[0].digit == fd);
            (if placed { food | (1u8 << fd) } else { food }, placed, s2)
        } else {
            (food, false, s1)
        }
    } else {
        (food, false, s)
    }
}

/// `m` is `om` after one tick of the snake animation (generator state `st`
/// after `ost`); `moved` is whether the snake moved.
pub open spec fn snake_stepped(m: MenuMode, st: RngState, om: MenuMode, ost: RngState, moved: bool) -> bool {
    let sc = ((om.snake_counter + 1) % 15) as u8;
    &&& m.snake_counter == sc
    &&& m.counter == om.counter
    &&& m.index == om.index
    &&& moved == (sc == 0)
    &&& sc != 0 ==> {
        &&& snake_list(m.snake_segments) == snake_list(om.snake_segments)
        &&& m.snake_direction == om.snake_direction
        &&& m.snake_grow == om.snake_grow
        &&& m.snake_food == om.snake_food
        &&& m.snake_hunger == om.snake_hunger
        &&& st == ost
    }
    &&& sc == 0 ==> {
        let (segs1, dir1, grow1, st1) = slithered(snake_list(om.snake_segments), om.snake_direction, om.snake_grow, ost);
        let (food2, ate) = eaten(segs1, dir1, om.snake_food);
        let (segs3, h3) = hungered(segs1, om.snake_hunger);
        &&& snake_list(m.snake_segments) == segs3
        &&& m.snake_direction == dir1
        &&& m.snake_grow == (grow1 || ate)
        &&& m.snake_food == food2
        &&& m.snake_hunger == h3
        &&& st == st1
    }
}

/// `(m, s)` is `(om, os)` after one tick of the menu.
pub open spec fn menu_ticked(m: MenuMode, s: GameState, om: MenuMode, os: GameState) -> bool {
    &&& om.index != 0 ==> {
        let c = om.counter + 1;
        &&& m.counter == if c > IDLE_CYCLES { 0 } else { c as u16 }
        &&& m.index == if c > IDLE_CYCLES { 0 } else { om.index }
        &&& snake_list(m.snake_segments) == snake_list(om.snake_segments)
        &&& m.snake_direction == om.snake_direction
        &&& m.snake_grow == om.snake_grow
        &&& m.snake_food == om.snake_food
        &&& m.snake_hunger == om.snake_hunger
        &&& m.snake_counter == om.snake_counter
        &&& after_spawn(s, os, 50, SpawnKind::Solid)
    }
    &&& om.index == 0 ==> exists|m1: MenuMode, st1: RngState, moved: bool| {
        &&& #[trigger] snake_stepped(m1, st1, om, os.rand.state, moved)
        &&& ({
            let (food, placed, st2) = food_spawned(snake_list(m1.snake_segments), m1.snake_food, st1);
            &&& m.snake_food == food
            &&& snake_list(m.snake_segments) == snake_list(m1.snake_segments)
            &&& m.snake_direction == m1.snake_direction
            &&& m.snake_grow == m1.snake_grow
            &&& m.snake_hunger == m1.snake_hunger
            &&& m.snake_counter == m1.snake_counter
            &&& m.counter == om.counter
            &&& m.index == om.index
            &&& after_spawn(s, GameState {
                rand: Rand { state: st2 },
                display: if moved || placed { DisplayState::Segments(segment_data(snake_list(m.snake_segments), m.snake_food)) } else { os.display },
                ..os
            }, 50, SpawnKind::Solid)
        })
    }
}

impl MenuMode {
    /// The menu's own state: a valid entry, counters in range, the snake on
    /// the display.
    pub open spec fn menu_wf(&self) -> bool {
        &&& self.index < NUM_MODES
        &&& self.counter <= IDLE_CYCLES
        &&& self.snake_counter < SNAKE_PERIOD
        &&& self.snake_hunger <= 127
        &&& self.snake_wf()
    }

    /// One tick of the snake: every `SNAKE_PERIOD` ticks it moves, eats and
    /// grows hungrier. Returns whether it moved.
    pub fn animate(&mut self, rand: &mut Rand) -> (moved: bool)
        requires
            old(self).menu_wf(),
            snake_list(old(self).snake_segments).len() > 0,
            old(rand).wf(),
        ensures
            final(self).menu_wf(),
            snake_list(final(self).snake_segments).len() > 0,
            final(rand).wf(),
            snake_stepped(*final(self), final(rand).state, *old(self), old(rand).state, moved),
    {
        self.snake_counter = (self.snake_counter + 1) % SNAKE_PERIOD;
        if self.snake_counter != 0 {
            return false;
        }
        self.snake_slither(rand);
        self.snake_eat();
        let snake_length = snake_len(&self.snake_segments) as u8;
        if snake_length > 1 {
            self.snake_hunger = self.snake_hunger + 1;
            let hunger_threshold: u8 = 0xFFu8 >> (snake_length - 1);
            proof {
                lemma_hunger_threshold(snake_length);
            }
            if self.snake_hunger >= hunger_threshold {
                self.snake_hunger = 0;
                let _ = snake_pop_back(&mut self.snake_segments);
            }
        }
        true
    }

    /// Food may appear at a random digit (see `food_spawned`); returns whether it did.
    /// Whether stroke `seg` is one of `list`.
    fn is_listed(list: &heapless::Vec<SnakeLocation, MAX_NEXT_SEGMENTS>, seg: &SnakeLocation) -> (r: bool)
        ensures
            r == listed(neighbor_list(*list), *seg),
    {
        let items = neighbors_slice(list);
        let mut j: usize = 0;
        while j < items.len()
            invariant
                0 <= j <= items@.len(),
                items@ == neighbor_list(*list),
                forall|k: int| 0 <= k < j ==> !((#[trigger] items@[k]).digit == seg.digit && items@[k].segment == seg.segment),
            decreases items@.len() - j,
        {
            if items[j].digit == seg.digit && items[j].segment == seg.segment {
                return true;
            }
            j += 1;
        }
        false
    }

    pub fn spawn_food(&mut self, rand: &mut Rand) -> (placed: bool)
        requires
            old(self).snake_wf(),
            old(rand).wf(),
        ensures
            final(rand).wf(),
            ({
                let (food, p, st) = food_spawned(snake_list(old(self).snake_segments), old(self).snake_food, old(rand).state);
                &&& final(self).snake_food == food
                &&& placed == p
                &&& final(rand).state == st
            }),
            snake_list(final(self).snake_segments) == snake_list(old(self).snake_segments),
            final(self).snake_direction == old(self).snake_direction,
            final(self).snake_grow == old(self).snake_grow,
            final(self).snake_hunger == old(self).snake_hunger,
            final(self).snake_counter == old(self).snake_counter,
            final(self).counter == old(self).counter,
            final(self).index == old(self).index,
    {
        if self.snake_food < 0b111 && rand.from_range(0, 100) == 0 {
            let food_digit = rand.from_range(0, 2);
            let s = segment_bits();
            let mut neighbors = neighbors_new();
            let _ = neighbors_push(&mut neighbors, SnakeLocation::new(food_digit, s.c));
            let _ = neighbors_push(&mut neighbors, SnakeLocation::new(food_digit, s.d));
            if food_digit < 2 {
                let _ = neighbors_push(&mut neighbors, SnakeLocation::new(food_digit + 1, s.d));
            }
            proof {
                let nl = neighbor_list(neighbors);
                assert forall|x: SnakeLocation| #[trigger] listed(nl, x) == near_food(x, food_digit) by {
                    if near_food(x, food_digit) {
                        if x.digit == food_digit && x.segment == 0x10 {
                            assert(nl[0].digit == x.digit);
                        } else if x.digit == food_digit && x.segment == 0x08 {
                            assert(nl[1].digit == x.digit);
                        } else {
                            assert(nl[2].digit == x.digit);
                        }
                    }
                }
            }
            let mut occupied_neighbors: usize = 0;
            let mut i: usize = 0;
            while i < snake_len(&self.snake_segments)
                invariant
                    0 <= i <= snake_list(self.snake_segments).len(),
                    snake_list(self.snake_segments).len() <= SNAKE_LENGTH,
                    occupied_neighbors == near_count(snake_list(self.snake_segments), food_digit, i as int),
                    occupied_neighbors <= i,
                    food_digit <= 2,
                    forall|x: SnakeLocation| #[trigger] listed(neighbor_list(neighbors), x) == near_food(x, food_digit),
                decreases snake_list(self.snake_segments).len() - i,
            {
                let seg = snake_get(&self.snake_segments, i).unwrap();
                if Self::is_listed(&neighbors, &seg) {
                    occupied_neighbors += 1;
                }
                i += 1;
            }
            let head_is_neighbor = snake_len(&self.snake_segments) > 0 && snake_get(&self.snake_segments, 0).unwrap().digit == food_digit;
            if occupied_neighbors < 2 && !head_is_neighbor {
                self.snake_food = self.snake_food | (1u8 << food_digit);
                return true;
            }
        }
        false
    }
}

/// `m` is `om` with a new snake: its heading from a random boolean, one
/// stroke at a random digit and stroke, then its first move (generator state
/// `st` after `ost`).
pub open spec fn snake_born(m: MenuMode, st: RngState, om: MenuMode, ost: RngState) -> bool {
    let s1 = ost.advance();
    let (digit, s2) = range_draw(s1, 0, 2);
    let (shift, s3) = range_draw(s2, 0, 6);
    let (segs, dir, grow, s4) = slithered(seq![sl(digit as int, 1u8 << shift)], false, om.snake_grow, s3);
    &&& snake_list(m.snake_segments) == segs
    &&& m.snake_direction == dir
    &&& m.snake_grow == grow
    &&& st == s4
    &&& m.snake_food == 0
    &&& m.snake_counter == 0
    &&& m.snake_hunger == om.snake_hunger
    &&& m.counter == om.counter
    &&& m.index == om.index
}

impl MenuMode {
    /// A new snake: a random heading, one stroke at a random place, and its
    /// first move.
    pub fn birth_snake(&mut self, rand: &mut Rand)
        requires
            old(self).menu_wf(),
            old(rand).wf(),
        ensures
            final(self).menu_wf(),
            snake_list(final(self).snake_segments).len() > 0,
            final(rand).wf(),
            snake_born(*final(self), final(rand).state, *old(self), old(rand).state),
    {
        self.snake_counter = 0;
        self.snake_food = 0;
        snake_clear(&mut self.snake_segments);
        self.snake_direction = rand.get_bool();
        let digit = rand.from_range(0, 2);
        let shift = rand.from_range(0, 6);
        proof {
            assert(1u8 << shift == 1u8 || 1u8 << shift == 2u8 || 1u8 << shift == 4u8 || 1u8 << shift == 8u8
                || 1u8 << shift == 16u8 || 1u8 << shift == 32u8 || 1u8 << shift == 64u8) by (bit_vector)
                requires
                    shift <= 6,
            ;
        }
        let snake_segment = SnakeLocation::new(digit, 1u8 << shift);
        let _ = snake_push_back(&mut self.snake_segments, snake_segment);
        proof {
            assert(snake_list(self.snake_segments) =~= seq![sl(digit as int, 1u8 << shift)]);
        }
        self.snake_slither(rand);
    }
}

/// The hunger threshold of a snake of two to six strokes is at most 127.
proof fn lemma_hunger_threshold(len: u8)
    requires
        2 <= len <= 6,
    ensures
        0xFFu8 >> (len - 1) as u8 <= 127,
{
    assert(forall|k: u8| 1 <= k <= 5 ==> 0xFFu8 >> k <= 127) by (bit_vector);
}

impl GameModeHandler for MenuMode {
    open spec fn mode_wf(&self) -> bool {
        self.menu_wf()
    }

    open spec fn ready(&self, trains: nat) -> bool {
        self.menu_wf() && snake_list(self.snake_segments).len() > 0
    }

    /// Two trains (five and three cars, the second faster) among platforms
    /// offering solid cargo, and a new snake of one stroke at a random place
    /// that makes its first move. The display shows the snake or the game
    /// chosen.
    fn on_restart(&mut self, state: &mut GameState)
        ensures
            menu_restarted(*final(self), *final(state), *old(self), *old(state)),
    {
        state.is_over = false;
        state.init_trains(Cargo::Full(LedPattern::Solid), 5, 5);
        let ghost inited = train_list(state.trains);
        state.add_train(Cargo::Full(LedPattern::Solid), 3, 5, Some(DEFAULT_SPEED + 5));
        state.init_platforms(Cargo::Full(LedPattern::Solid));
        let ghost before = state.rand.state;
        self.birth_snake(&mut state.rand);
        state.display = if self.index == 0 {
            DisplayState::Segments(self.snake_segment_data())
        } else {
            DisplayState::Text(GameMode::mode_name(self.index))
        };
        proof {
            assert(inited =~= seq![inited[0]]);
            assert(train_list(state.trains)[0] == train_list(state.trains).take(1)[0]);
            assert(snake_born(*self, state.rand.state, *old(self), before));
        }
    }

    /// On the snake entry the snake moves and food may appear; on a game
    /// entry the menu waits for input and goes back to the snake after
    /// `IDLE_CYCLES` ticks. Either way empty platforms now and then offer
    /// solid cargo.
    fn on_game_tick(&mut self, state: &mut GameState)
        ensures
            menu_ticked(*final(self), *final(state), *old(self), *old(state)),
    {
        if self.index == 0 {
            let moved = self.animate(&mut state.rand);
            let ghost m1 = *self;
            let ghost st1 = state.rand.state;
            if moved {
                state.display = DisplayState::Segments(self.snake_segment_data());
            }
            let placed = self.spawn_food(&mut state.rand);
            if placed {
                state.display = DisplayState::Segments(self.snake_segment_data());
            }
            proof {
                assert(*state == GameState {
                    rand: Rand { state: state.rand.state },
                    display: if moved || placed { DisplayState::Segments(segment_data(snake_list(self.snake_segments), self.snake_food)) } else { old(state).display },
                    ..*old(state)
                });
            }
            state.spawn_cargo(50, SpawnKind::Solid);
            proof {
                assert(snake_stepped(m1, st1, *old(self), old(state).rand.state, moved));
            }
        } else {
            self.counter = self.counter + 1;
            if self.counter > IDLE_CYCLES {
                self.counter = 0;
                self.index = 0;
            }
            state.spawn_cargo(50, SpawnKind::Solid);
        }
    }

    /// Up and down show the previous and next game, right starts the game
    /// shown (none while the snake is shown). Any event resets the idle count.
    fn on_input_event(&mut self, event: InputEvent, state: &mut GameState)
        ensures
            menu_input(*final(self), *final(state), *old(self), *old(state), event),
    {
        self.counter = 0;
        match event {
            InputEvent::DirectionButtonPressed(InputDirection::Up) => {
                state.display = DisplayState::Text(self.next_game_mode(false));
            },
            InputEvent::DirectionButtonPressed(InputDirection::Down) => {
                state.display = DisplayState::Text(self.next_game_mode(true));
            },
            InputEvent::DirectionButtonPressed(InputDirection::Right) => {
                state.target_mode_index = self.index;
            },
            _ => {},
        }
    }

    /// One random boolean decides whether the moved train toggles the switch
    /// it just left; then it empties the cargo platforms at its engine.
    fn on_train_advance(&mut self, train_index: usize, state: &mut GameState)
        ensures
            menu_advanced(*final(self), *final(state), *old(self), *old(state), train_index),
    {
        if state.rand.get_bool() {
            state.train_switch(train_index);
        }
        let front = trains_slice(&state.trains)[train_index].front();
        state.clear_cargo_at(front);
    }
}

/// `(m, gs)` is the mode and state `(om, ogs)` restarted.
pub open spec fn menu_restarted(m: MenuMode, gs: GameState, om: MenuMode, ogs: GameState) -> bool {
    &&& !gs.is_over
    &&& gs.is_paused == ogs.is_paused
    &&& gs.redraw
    &&& gs.settings == ogs.settings
    &&& gs.switches@ == ogs.switches@
    &&& gs.target_mode_index == ogs.target_mode_index
    &&& train_list(gs.trains).len() == 2
    &&& exists|t: crate::train::Train| trains_after_init(seq![t], train_list(ogs.trains), ogs.platforms@, Cargo::Full(LedPattern::Solid), 5, 5)
        && #[trigger] train_list(gs.trains)[0] == t
    &&& new_train(train_list(gs.trains)[1], ogs.platforms@, Cargo::Full(LedPattern::Solid), 3, 5, Some((DEFAULT_SPEED + 5) as u8))
    &&& platforms_after_init(gs.platforms@, ogs.platforms@, Cargo::Full(LedPattern::Solid))
    &&& m.index == om.index
    &&& m.counter == om.counter
    &&& exists|st: RngState| #[trigger] snake_born(m, gs.rand.state, om, st)
    &&& gs.display == if om.index == 0 {
        DisplayState::Segments(segment_data(snake_list(m.snake_segments), 0))
    } else {
        DisplayState::Text(mode_names(om.index))
    }
}

/// `(m, gs)` is the mode and state `(om, ogs)` after button event `event`.
pub open spec fn menu_input(m: MenuMode, gs: GameState, om: MenuMode, ogs: GameState, event: InputEvent) -> bool {
    &&& m.counter == 0
    &&& snake_list(m.snake_segments) == snake_list(om.snake_segments)
    &&& m.snake_food == om.snake_food
    &&& m.snake_grow == om.snake_grow
    &&& m.snake_counter == om.snake_counter
    &&& m.snake_hunger == om.snake_hunger
    &&& m.snake_direction == om.snake_direction
    &&& train_list(gs.trains) == train_list(ogs.trains)
    &&& gs.platforms@ == ogs.platforms@
    &&& gs.switches@ == ogs.switches@
    &&& gs.rand == ogs.rand
    &&& gs.is_over == ogs.is_over
    &&& gs.is_paused == ogs.is_paused
    &&& gs.redraw == ogs.redraw
    &&& gs.settings == ogs.settings
    &&& match event {
        InputEvent::DirectionButtonPressed(InputDirection::Up) => {
            &&& m.index == next_index(om.index, false)
            &&& gs.display == DisplayState::Text(mode_names(m.index))
            &&& gs.target_mode_index == ogs.target_mode_index
        },
        InputEvent::DirectionButtonPressed(InputDirection::Down) => {
            &&& m.index == next_index(om.index, true)
            &&& gs.display == DisplayState::Text(mode_names(m.index))
            &&& gs.target_mode_index == ogs.target_mode_index
        },
        InputEvent::DirectionButtonPressed(InputDirection::Right) => {
            &&& m.index == om.index
            &&& gs.display == ogs.display
            &&& gs.target_mode_index == om.index
        },
        _ => {
            &&& m.index == om.index
            &&& gs.display == ogs.display
            &&& gs.target_mode_index == ogs.target_mode_index
        },
    }
}

/// `(m, gs)` is the mode and state `(om, ogs)` after train `train_index` moved.
pub open spec fn menu_advanced(m: MenuMode, gs: GameState, om: MenuMode, ogs: GameState, train_index: usize) -> bool {
    &&& m == om
    &&& after_arrival(
        gs,
        GameState { rand: Rand { state: ogs.rand.state.advance() }, ..ogs },
        train_list(ogs.trains)[train_index as int].front_loc(),
    )
}


/// A move that the candidates from `i` on give is a valid move from `loc`
/// that continues into a path of `n - 1` more moves.
proof fn lemma_try_candidates_found(
    segs: Seq<SnakeLocation>,
    loc: SnakeLocation,
    dir: bool,
    cands: Seq<(SnakeLocation, bool)>,
    i: int,
    n: nat,
    s: RngState,
)
    requires
        n >= 1,
    ensures
        try_candidates(segs, loc, dir, cands, i, n, s).0 matches Some(p) ==> {
            &&& valid_movement(segs, loc, dir, p.0)
            &&& exists|st: RngState| (#[trigger] path_from(segs, p.0, p.1, (n - 1) as nat, st)).0 is Some
        },
    decreases cands.len() - i,
{
    if i < 0 || i >= cands.len() {
    } else if valid_movement(segs, loc, dir, cands[i].0) {
        let (r, s2) = path_from(segs, cands[i].0, cands[i].1, (n - 1) as nat, s);
        if r is Some {
            assert(path_from(segs, cands[i].0, cands[i].1, (n - 1) as nat, s).0 is Some);
        } else {
            lemma_try_candidates_found(segs, loc, dir, cands, i + 1, n, s2);
        }
    } else {
        lemma_try_candidates_found(segs, loc, dir, cands, i + 1, n, s);
    }
}

/// The first move of a path that `find_path` finds (for a path of at least
/// one move) is a valid move of the snake from `loc`, from which a path of
/// the remaining moves goes on.
pub proof fn lemma_path_found(segs: Seq<SnakeLocation>, loc: SnakeLocation, dir: bool, n: nat, s: RngState)
    requires
        n >= 1,
    ensures
        path_from(segs, loc, dir, n, s).0 matches Some(p) ==> {
            &&& valid_movement(segs, loc, dir, p.0)
            &&& exists|st: RngState| (#[trigger] path_from(segs, p.0, p.1, (n - 1) as nat, st)).0 is Some
        },
{
    let (cands, s1) = shuffled(next_segments(loc, dir), next_segments(loc, dir).len() - 1, s);
    lemma_try_candidates_found(segs, loc, dir, cands, 0, n, s1);
}

/// Whether the snake at `loc` heading `dir` has a path of `n` moves: a valid
/// move to one of its next segments from which a path of `n - 1` more moves
/// goes on.
pub open spec fn path_exists(segs: Seq<SnakeLocation>, loc: SnakeLocation, dir: bool, n: nat) -> bool
    decreases n,
{
    if n == 0 {
        true
    } else {
        exists|c: (SnakeLocation, bool)|
            #[trigger] next_segments(loc, dir).contains(c) && valid_movement(segs, loc, dir, c.0)
                && path_exists(segs, c.0, c.1, (n - 1) as nat)
    }
}

/// Swapping two entries keeps the same entries.
proof fn lemma_swapped_contains(v: Seq<(SnakeLocation, bool)>, i: int, j: int)
    requires
        0 <= i < v.len(),
        0 <= j < v.len(),
    ensures
        swapped(v, i, j).len() == v.len(),
        forall|c: (SnakeLocation, bool)| v.contains(c) <==> #[trigger] swapped(v, i, j).contains(c),
{
    let w = swapped(v, i, j);
    assert forall|c: (SnakeLocation, bool)| v.contains(c) implies #[trigger] w.contains(c) by {
        let k = choose|k: int| 0 <= k < v.len() && v[k] == c;
        if k == i {
            assert(w[j] == c);
        } else if k == j {
            assert(w[i] == c);
        } else {
            assert(w[k] == c);
        }
    }
    assert forall|c: (SnakeLocation, bool)| #[trigger] w.contains(c) implies v.contains(c) by {
        let k = choose|k: int| 0 <= k < w.len() && w[k] == c;
        if k == j {
            assert(v[i] == c);
        } else if k == i {
            assert(v[j] == c);
        } else {
            assert(v[k] == c);
        }
    }
}

/// The shuffle only reorders: it keeps the length and the entries.
proof fn lemma_shuffled_contains(v: Seq<(SnakeLocation, bool)>, i: int, s: RngState)
    requires
        i < v.len(),
        i < 255,
    ensures
        shuffled(v, i, s).0.len() == v.len(),
        forall|c: (SnakeLocation, bool)| v.contains(c) <==> #[trigger] shuffled(v, i, s).0.contains(c),
    decreases i,
{
    if i > 0 {
        let (j, s1) = range_draw(s, 0, i as u8);
        let span = (i as u8 - 0 + 1) as u8;
        let (b, st) = first_below(s, rejection_limit(span));
        assert(b % span < span);
        assert(j == b % span);
        lemma_swapped_contains(v, i, j as int);
        lemma_shuffled_contains(swapped(v, i, j as int), i - 1, s1);
    }
}

/// The candidates from `i` on yield a move exactly when one of them is a
/// valid move that goes on into a path of `n - 1` moves, given that
/// `path_from` finds such paths exactly when they exist.
proof fn lemma_try_candidates_complete(
    segs: Seq<SnakeLocation>,
    loc: SnakeLocation,
    dir: bool,
    cands: Seq<(SnakeLocation, bool)>,
    i: int,
    n: nat,
    s: RngState,
)
    requires
        n >= 1,
        0 <= i,
        forall|l: SnakeLocation, d: bool, st: RngState|
            (#[trigger] path_from(segs, l, d, (n - 1) as nat, st)).0 is Some <==> path_exists(segs, l, d, (n - 1) as nat),
    ensures
        try_candidates(segs, loc, dir, cands, i, n, s).0 is Some <==> exists|k: int|
            i <= k < cands.len() && valid_movement(segs, loc, dir, (#[trigger] cands[k]).0)
                && path_exists(segs, cands[k].0, cands[k].1, (n - 1) as nat),
    decreases cands.len() - i,
{
    if i >= cands.len() {
    } else if valid_movement(segs, loc, dir, cands[i].0) {
        let (r, s2) = path_from(segs, cands[i].0, cands[i].1, (n - 1) as nat, s);
        if r is None {
            lemma_try_candidates_complete(segs, loc, dir, cands, i + 1, n, s2);
        }
    } else {
        lemma_try_candidates_complete(segs, loc, dir, cands, i + 1, n, s);
    }
}

/// `find_path` finds a path of `n` moves exactly when one exists, whatever
/// state the random generator is in: the shuffle only changes the order in
/// which the moves are tried.
pub proof fn lemma_path_complete(segs: Seq<SnakeLocation>, loc: SnakeLocation, dir: bool, n: nat, s: RngState)
    ensures
        path_from(segs, loc, dir, n, s).0 is Some <==> path_exists(segs, loc, dir, n),
    decreases n,
{
    if n > 0 {
        let ns = next_segments(loc, dir);
        assert(ns.len() <= 3);
        let (cands, s1) = shuffled(ns, ns.len() - 1, s);
        lemma_shuffled_contains(ns, ns.len() - 1, s);
        assert forall|l: SnakeLocation, d: bool, st: RngState|
            (#[trigger] path_from(segs, l, d, (n - 1) as nat, st)).0 is Some <==> path_exists(segs, l, d, (n - 1) as nat) by {
            lemma_path_complete(segs, l, d, (n - 1) as nat, st);
        }
        lemma_try_candidates_complete(segs, loc, dir, cands, 0, n, s1);
        if path_from(segs, loc, dir, n, s).0 is Some {
            let k = choose|k: int|
                0 <= k < cands.len() && valid_movement(segs, loc, dir, (#[trigger] cands[k]).0)
                    && path_exists(segs, cands[k].0, cands[k].1, (n - 1) as nat);
            assert(cands.contains(cands[k]));
            assert(ns.contains(cands[k]));
        }
        if path_exists(segs, loc, dir, n) {
            let c = choose|c: (SnakeLocation, bool)|
                #[trigger] ns.contains(c) && valid_movement(segs, loc, dir, c.0)
                    && path_exists(segs, c.0, c.1, (n - 1) as nat);
            assert(cands.contains(c));
            let k = choose|k: int| 0 <= k < cands.len() && cands[k] == c;
            assert(valid_movement(segs, loc, dir, cands[k].0));
        }
    }
}

} // verus!
