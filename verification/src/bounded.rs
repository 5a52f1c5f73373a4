//! The fixed-capacity lists of the `heapless` crate that the game keeps its
//! trains, cargo timers, menu snake and working lists in. What a list holds
//! is named (`train_list`, `timer_list`, `time_timer_list`, `snake_list`,
//! `step_list`, `event_list`, `neighbor_list`, `index_list`, `cargo_list`);
//! each operation the game uses is a thin call of the crate's method whose
//! contract says, over that name, what the method does to the list and what
//! it returns.
use vstd::prelude::*;

use crate::game_state::MAX_TRAINS;
use crate::modes::delivery::CargoTimer;
use crate::location::NUM_PLATFORMS;
use crate::cargo::Cargo;
use crate::modes::menu::{SnakeLocation, MAX_NEXT_SEGMENTS, SNAKE_LENGTH};
use crate::train::Train;

verus! {

#[verifier::external_type_specification]
#[verifier::external_body]
#[verifier::reject_recursive_types(T)]
pub struct ExHeaplessVec<T, const N: usize>(heapless::Vec<T, N>);

/// The trains that list `v` holds, in order.
pub uninterp spec fn train_list(v: heapless::Vec<Train, MAX_TRAINS>) -> Seq<Train>;

/// `heapless::Vec::new`: an empty list.
#[verifier::external_body]
pub(crate) fn trains_new() -> (r: heapless::Vec<Train, MAX_TRAINS>)
    ensures
        train_list(r) == Seq::<Train>::empty(),
{
    heapless::Vec::new()
}

/// The number of trains in the list (`len` of the slice it derefs to).
#[verifier::external_body]
pub(crate) fn trains_len(v: &heapless::Vec<Train, MAX_TRAINS>) -> (r: usize)
    ensures
        r == train_list(*v).len(),
{
    v.len()
}

/// The list as a slice (`heapless::Vec::as_slice`): its trains in order.
#[verifier::external_body]
pub(crate) fn trains_slice(v: &heapless::Vec<Train, MAX_TRAINS>) -> (r: &[Train])
    ensures
        r@ == train_list(*v),
{
    v.as_slice()
}

/// `heapless::Vec::push`: appends `t` unless the list is full, in which case
/// `t` comes back and the list is unchanged.
#[verifier::external_body]
pub(crate) fn trains_push(v: &mut heapless::Vec<Train, MAX_TRAINS>, t: Train) -> (r: Result<(), Train>)
    ensures
        train_list(*old(v)).len() < MAX_TRAINS ==> r is Ok && train_list(*final(v)) == train_list(*old(v)).push(t),
        train_list(*old(v)).len() >= MAX_TRAINS ==> (r matches Err(back) && back == t) && train_list(*final(v)) == train_list(*old(v)),
{
    v.push(t)
}

/// `heapless::Vec::pop`: takes off the last train, if any.
#[verifier::external_body]
pub(crate) fn trains_pop(v: &mut heapless::Vec<Train, MAX_TRAINS>) -> (r: Option<Train>)
    ensures
        train_list(*old(v)).len() == 0 ==> r is None && train_list(*final(v)) == train_list(*old(v)),
        train_list(*old(v)).len() > 0 ==> r == Some(train_list(*old(v)).last()) && train_list(*final(v))
            == train_list(*old(v)).drop_last(),
{
    v.pop()
}

/// `heapless::Vec::remove`: takes out train `i`, the later ones moving up.
#[verifier::external_body]
pub(crate) fn trains_remove(v: &mut heapless::Vec<Train, MAX_TRAINS>, i: usize) -> (r: Train)
    requires
        i < train_list(*old(v)).len(),
    ensures
        r == train_list(*old(v))[i as int],
        train_list(*final(v)) == train_list(*old(v)).remove(i as int),
{
    v.remove(i)
}

/// `heapless::Vec::insert`: puts `t` at position `i`, the later trains moving
/// down, unless the list is full, in which case `t` comes back and the list
/// is unchanged.
#[verifier::external_body]
pub(crate) fn trains_insert(v: &mut heapless::Vec<Train, MAX_TRAINS>, i: usize, t: Train) -> (r: Result<(), Train>)
    requires
        i <= train_list(*old(v)).len(),
    ensures
        train_list(*old(v)).len() < MAX_TRAINS ==> r is Ok && train_list(*final(v)) == train_list(*old(v)).insert(i as int, t),
        train_list(*old(v)).len() >= MAX_TRAINS ==> (r matches Err(back) && back == t) && train_list(*final(v)) == train_list(*old(v)),
{
    v.insert(i, t)
}

/// The capacity of the delivery cargo timer list.
pub const CARGO_TIMER_SLOTS: usize = 8;

/// The timers that list `v` holds, in order.
pub uninterp spec fn timer_list(v: heapless::Vec<CargoTimer, CARGO_TIMER_SLOTS>) -> Seq<CargoTimer>;

/// `heapless::Vec::new`: an empty list.
#[verifier::external_body]
pub(crate) fn timers_new() -> (r: heapless::Vec<CargoTimer, CARGO_TIMER_SLOTS>)
    ensures
        timer_list(r) == Seq::<CargoTimer>::empty(),
{
    heapless::Vec::new()
}

/// The list as a slice (`heapless::Vec::as_slice`): its timers in order.
#[verifier::external_body]
pub(crate) fn timers_slice(v: &heapless::Vec<CargoTimer, CARGO_TIMER_SLOTS>) -> (r: &[CargoTimer])
    ensures
        r@ == timer_list(*v),
{
    v.as_slice()
}

/// `heapless::Vec::push`: appends `t` unless the list is full, in which case
/// `t` comes back and the list is unchanged.
#[verifier::external_body]
pub(crate) fn timers_push(v: &mut heapless::Vec<CargoTimer, CARGO_TIMER_SLOTS>, t: CargoTimer) -> (r: Result<(), CargoTimer>)
    ensures
        timer_list(*old(v)).len() < CARGO_TIMER_SLOTS ==> r is Ok && timer_list(*final(v)) == timer_list(*old(v)).push(t),
        timer_list(*old(v)).len() >= CARGO_TIMER_SLOTS ==> (r matches Err(back) && back == t) && timer_list(*final(v)) == timer_list(*old(v)),
{
    v.push(t)
}

/// `heapless::Vec::remove`: takes out timer `i`, the later ones moving up.
#[verifier::external_body]
pub(crate) fn timers_remove(v: &mut heapless::Vec<CargoTimer, CARGO_TIMER_SLOTS>, i: usize) -> (r: CargoTimer)
    requires
        i < timer_list(*old(v)).len(),
    ensures
        r == timer_list(*old(v))[i as int],
        timer_list(*final(v)) == timer_list(*old(v)).remove(i as int),
{
    v.remove(i)
}

/// Replaces timer `i` by `t` (through the slice the list derefs to).
#[verifier::external_body]
pub(crate) fn timers_set(v: &mut heapless::Vec<CargoTimer, CARGO_TIMER_SLOTS>, i: usize, t: CargoTimer)
    requires
        i < timer_list(*old(v)).len(),
    ensures
        timer_list(*final(v)) == timer_list(*old(v)).update(i as int, t),
{
    v[i] = t;
}

/// `heapless::Vec::clear`: empties the list.
#[verifier::external_body]
pub(crate) fn timers_clear(v: &mut heapless::Vec<CargoTimer, CARGO_TIMER_SLOTS>)
    ensures
        timer_list(*final(v)) == Seq::<CargoTimer>::empty(),
{
    v.clear()
}

/// The capacity of the time-mode cargo timer list.
pub const TIME_TIMER_SLOTS: usize = 3;

/// The timers that list `v` holds, in order.
pub uninterp spec fn time_timer_list(v: heapless::Vec<CargoTimer, TIME_TIMER_SLOTS>) -> Seq<CargoTimer>;

/// `heapless::Vec::new`: an empty list.
#[verifier::external_body]
pub(crate) fn time_timers_new() -> (r: heapless::Vec<CargoTimer, TIME_TIMER_SLOTS>)
    ensures
        time_timer_list(r) == Seq::<CargoTimer>::empty(),
{
    heapless::Vec::new()
}

/// The list as a slice (`heapless::Vec::as_slice`): its timers in order.
#[verifier::external_body]
pub(crate) fn time_timers_slice(v: &heapless::Vec<CargoTimer, TIME_TIMER_SLOTS>) -> (r: &[CargoTimer])
    ensures
        r@ == time_timer_list(*v),
{
    v.as_slice()
}

/// `heapless::Vec::push`: appends `t` unless the list is full, in which case
/// `t` comes back and the list is unchanged.
#[verifier::external_body]
pub(crate) fn time_timers_push(v: &mut heapless::Vec<CargoTimer, TIME_TIMER_SLOTS>, t: CargoTimer) -> (r: Result<(), CargoTimer>)
    ensures
        time_timer_list(*old(v)).len() < TIME_TIMER_SLOTS ==> r is Ok && time_timer_list(*final(v)) == time_timer_list(*old(v)).push(t),
        time_timer_list(*old(v)).len() >= TIME_TIMER_SLOTS ==> (r matches Err(back) && back == t) && time_timer_list(*final(v)) == time_timer_list(*old(v)),
{
    v.push(t)
}

/// `heapless::Vec::remove`: takes out timer `i`, the later ones moving up.
#[verifier::external_body]
pub(crate) fn time_timers_remove(v: &mut heapless::Vec<CargoTimer, TIME_TIMER_SLOTS>, i: usize) -> (r: CargoTimer)
    requires
        i < time_timer_list(*old(v)).len(),
    ensures
        r == time_timer_list(*old(v))[i as int],
        time_timer_list(*final(v)) == time_timer_list(*old(v)).remove(i as int),
{
    v.remove(i)
}

/// Replaces timer `i` by `t` (through the slice the list derefs to).
#[verifier::external_body]
pub(crate) fn time_timers_set(v: &mut heapless::Vec<CargoTimer, TIME_TIMER_SLOTS>, i: usize, t: CargoTimer)
    requires
        i < time_timer_list(*old(v)).len(),
    ensures
        time_timer_list(*final(v)) == time_timer_list(*old(v)).update(i as int, t),
{
    v[i] = t;
}

/// `heapless::Vec::clear`: empties the list.
#[verifier::external_body]
pub(crate) fn time_timers_clear(v: &mut heapless::Vec<CargoTimer, TIME_TIMER_SLOTS>)
    ensures
        time_timer_list(*final(v)) == Seq::<CargoTimer>::empty(),
{
    v.clear()
}

#[verifier::external_type_specification]
#[verifier::external_body]
#[verifier::reject_recursive_types(T)]
pub struct ExHeaplessDeque<T, const N: usize>(heapless::Deque<T, N>);

/// The snake segments that deque `d` holds, front to back.
pub uninterp spec fn snake_list(d: heapless::Deque<SnakeLocation, SNAKE_LENGTH>) -> Seq<SnakeLocation>;

/// `heapless::Deque::new`: an empty deque.
#[verifier::external_body]
pub(crate) fn snake_new() -> (r: heapless::Deque<SnakeLocation, SNAKE_LENGTH>)
    ensures
        snake_list(r) == Seq::<SnakeLocation>::empty(),
{
    heapless::Deque::new()
}

/// `heapless::Deque::len`: the number of segments.
#[verifier::external_body]
pub(crate) fn snake_len(d: &heapless::Deque<SnakeLocation, SNAKE_LENGTH>) -> (r: usize)
    ensures
        r == snake_list(*d).len(),
{
    d.len()
}

/// Segment `i` from the front (`heapless::Deque::iter`, which walks from the
/// front, then `nth`), if there is one.
#[verifier::external_body]
pub(crate) fn snake_get(d: &heapless::Deque<SnakeLocation, SNAKE_LENGTH>, i: usize) -> (r: Option<SnakeLocation>)
    ensures
        i < snake_list(*d).len() ==> r == Some(snake_list(*d)[i as int]),
        i >= snake_list(*d).len() ==> r is None,
{
    d.iter().nth(i).copied()
}

/// `heapless::Deque::push_front`: puts `s` in front unless the deque is
/// full, in which case `s` comes back and the deque is unchanged.
#[verifier::external_body]
pub(crate) fn snake_push_front(d: &mut heapless::Deque<SnakeLocation, SNAKE_LENGTH>, s: SnakeLocation) -> (r: Result<(), SnakeLocation>)
    ensures
        snake_list(*old(d)).len() < SNAKE_LENGTH ==> r is Ok && snake_list(*final(d)) == seq![s] + snake_list(*old(d)),
        snake_list(*old(d)).len() >= SNAKE_LENGTH ==> (r matches Err(back) && back == s) && snake_list(*final(d)) == snake_list(*old(d)),
{
    d.push_front(s)
}

/// `heapless::Deque::push_back`: puts `s` at the back unless the deque is
/// full, in which case `s` comes back and the deque is unchanged.
#[verifier::external_body]
pub(crate) fn snake_push_back(d: &mut heapless::Deque<SnakeLocation, SNAKE_LENGTH>, s: SnakeLocation) -> (r: Result<(), SnakeLocation>)
    ensures
        snake_list(*old(d)).len() < SNAKE_LENGTH ==> r is Ok && snake_list(*final(d)) == snake_list(*old(d)).push(s),
        snake_list(*old(d)).len() >= SNAKE_LENGTH ==> (r matches Err(back) && back == s) && snake_list(*final(d)) == snake_list(*old(d)),
{
    d.push_back(s)
}

/// `heapless::Deque::pop_back`: takes off the last segment, if any.
#[verifier::external_body]
pub(crate) fn snake_pop_back(d: &mut heapless::Deque<SnakeLocation, SNAKE_LENGTH>) -> (r: Option<SnakeLocation>)
    ensures
        snake_list(*old(d)).len() == 0 ==> r is None && snake_list(*final(d)) == snake_list(*old(d)),
        snake_list(*old(d)).len() > 0 ==> r == Some(snake_list(*old(d)).last()) && snake_list(*final(d))
            == snake_list(*old(d)).drop_last(),
{
    d.pop_back()
}

/// `heapless::Deque::clear`: empties the deque.
#[verifier::external_body]
pub(crate) fn snake_clear(d: &mut heapless::Deque<SnakeLocation, SNAKE_LENGTH>)
    ensures
        snake_list(*final(d)) == Seq::<SnakeLocation>::empty(),
{
    d.clear()
}

/// The snake moves (segment and heading after the move) that list `v`
/// holds, in order.
pub uninterp spec fn step_list(v: heapless::Vec<(SnakeLocation, bool), MAX_NEXT_SEGMENTS>) -> Seq<(SnakeLocation, bool)>;

/// `heapless::Vec::new`: an empty list.
#[verifier::external_body]
pub(crate) fn steps_new() -> (r: heapless::Vec<(SnakeLocation, bool), MAX_NEXT_SEGMENTS>)
    ensures
        step_list(r) == Seq::<(SnakeLocation, bool)>::empty(),
{
    heapless::Vec::new()
}

/// The list as a slice (`heapless::Vec::as_slice`): its moves in order.
#[verifier::external_body]
pub(crate) fn steps_slice(v: &heapless::Vec<(SnakeLocation, bool), MAX_NEXT_SEGMENTS>) -> (r: &[(SnakeLocation, bool)])
    ensures
        r@ == step_list(*v),
{
    v.as_slice()
}

/// `heapless::Vec::push`: appends `m` unless the list is full, in which case
/// `m` comes back and the list is unchanged.
#[verifier::external_body]
pub(crate) fn steps_push(v: &mut heapless::Vec<(SnakeLocation, bool), MAX_NEXT_SEGMENTS>, m: (SnakeLocation, bool)) -> (r: Result<(), (SnakeLocation, bool)>)
    ensures
        step_list(*old(v)).len() < MAX_NEXT_SEGMENTS ==> r is Ok && step_list(*final(v)) == step_list(*old(v)).push(m),
        step_list(*old(v)).len() >= MAX_NEXT_SEGMENTS ==> (r matches Err(back) && back == m) && step_list(*final(v)) == step_list(*old(v)),
{
    v.push(m)
}

/// Replaces move `i` by `m` (through the slice the list derefs to).
#[verifier::external_body]
pub(crate) fn steps_set(v: &mut heapless::Vec<(SnakeLocation, bool), MAX_NEXT_SEGMENTS>, i: usize, m: (SnakeLocation, bool))
    requires
        i < step_list(*old(v)).len(),
    ensures
        step_list(*final(v)) == step_list(*old(v)).update(i as int, m),
{
    v[i] = m;
}

/// The indices of the trains that moved, as list `v` holds them in order.
pub uninterp spec fn event_list(v: heapless::Vec<usize, MAX_TRAINS>) -> Seq<usize>;

/// `heapless::Vec::new`: an empty list.
#[verifier::external_body]
pub(crate) fn events_new() -> (r: heapless::Vec<usize, MAX_TRAINS>)
    ensures
        event_list(r) == Seq::<usize>::empty(),
{
    heapless::Vec::new()
}

/// The list as a slice (`heapless::Vec::as_slice`): its indices in order.
#[verifier::external_body]
pub(crate) fn events_slice(v: &heapless::Vec<usize, MAX_TRAINS>) -> (r: &[usize])
    ensures
        r@ == event_list(*v),
{
    v.as_slice()
}

/// `heapless::Vec::push`: appends `k` unless the list is full, in which case
/// `k` comes back and the list is unchanged.
#[verifier::external_body]
pub(crate) fn events_push(v: &mut heapless::Vec<usize, MAX_TRAINS>, k: usize) -> (r: Result<(), usize>)
    ensures
        event_list(*old(v)).len() < MAX_TRAINS ==> r is Ok && event_list(*final(v)) == event_list(*old(v)).push(k),
        event_list(*old(v)).len() >= MAX_TRAINS ==> (r matches Err(back) && back == k) && event_list(*final(v)) == event_list(*old(v)),
{
    v.push(k)
}

/// The snake strokes that list `v` holds, in order.
pub uninterp spec fn neighbor_list(v: heapless::Vec<SnakeLocation, MAX_NEXT_SEGMENTS>) -> Seq<SnakeLocation>;

/// `heapless::Vec::new`: an empty list.
#[verifier::external_body]
pub(crate) fn neighbors_new() -> (r: heapless::Vec<SnakeLocation, MAX_NEXT_SEGMENTS>)
    ensures
        neighbor_list(r) == Seq::<SnakeLocation>::empty(),
{
    heapless::Vec::new()
}

/// The list as a slice (`heapless::Vec::as_slice`): its strokes in order.
#[verifier::external_body]
pub(crate) fn neighbors_slice(v: &heapless::Vec<SnakeLocation, MAX_NEXT_SEGMENTS>) -> (r: &[SnakeLocation])
    ensures
        r@ == neighbor_list(*v),
{
    v.as_slice()
}

/// `heapless::Vec::push`: appends `l` unless the list is full, in which case
/// `l` comes back and the list is unchanged.
#[verifier::external_body]
pub(crate) fn neighbors_push(v: &mut heapless::Vec<SnakeLocation, MAX_NEXT_SEGMENTS>, l: SnakeLocation) -> (r: Result<(), SnakeLocation>)
    ensures
        neighbor_list(*old(v)).len() < MAX_NEXT_SEGMENTS ==> r is Ok && neighbor_list(*final(v)) == neighbor_list(*old(v)).push(l),
        neighbor_list(*old(v)).len() >= MAX_NEXT_SEGMENTS ==> (r matches Err(back) && back == l) && neighbor_list(*final(v)) == neighbor_list(*old(v)),
{
    v.push(l)
}

/// The platform indices that list `v` holds, in order.
pub uninterp spec fn index_list(v: heapless::Vec<usize, NUM_PLATFORMS>) -> Seq<usize>;

/// `heapless::Vec::new`: an empty list.
#[verifier::external_body]
pub(crate) fn indices_new() -> (r: heapless::Vec<usize, NUM_PLATFORMS>)
    ensures
        index_list(r) == Seq::<usize>::empty(),
{
    heapless::Vec::new()
}

/// The list as a slice (`heapless::Vec::as_slice`): its indices in order.
#[verifier::external_body]
pub(crate) fn indices_slice(v: &heapless::Vec<usize, NUM_PLATFORMS>) -> (r: &[usize])
    ensures
        r@ == index_list(*v),
{
    v.as_slice()
}

/// `heapless::Vec::push`: appends `k` unless the list is full, in which case
/// `k` comes back and the list is unchanged.
#[verifier::external_body]
pub(crate) fn indices_push(v: &mut heapless::Vec<usize, NUM_PLATFORMS>, k: usize) -> (r: Result<(), usize>)
    ensures
        index_list(*old(v)).len() < NUM_PLATFORMS ==> r is Ok && index_list(*final(v)) == index_list(*old(v)).push(k),
        index_list(*old(v)).len() >= NUM_PLATFORMS ==> (r matches Err(back) && back == k) && index_list(*final(v)) == index_list(*old(v)),
{
    v.push(k)
}

/// `heapless::Vec::remove`: takes out index `i`, the later ones moving up.
#[verifier::external_body]
pub(crate) fn indices_remove(v: &mut heapless::Vec<usize, NUM_PLATFORMS>, i: usize) -> (r: usize)
    requires
        i < index_list(*old(v)).len(),
    ensures
        r == index_list(*old(v))[i as int],
        index_list(*final(v)) == index_list(*old(v)).remove(i as int),
{
    v.remove(i)
}

/// The cargo that list `v` holds, in order.
pub uninterp spec fn cargo_list(v: heapless::Vec<Cargo, NUM_PLATFORMS>) -> Seq<Cargo>;

/// `heapless::Vec::new`: an empty list.
#[verifier::external_body]
pub(crate) fn cargos_new() -> (r: heapless::Vec<Cargo, NUM_PLATFORMS>)
    ensures
        cargo_list(r) == Seq::<Cargo>::empty(),
{
    heapless::Vec::new()
}

/// The list as a slice (`heapless::Vec::as_slice`): its cargo in order.
#[verifier::external_body]
pub(crate) fn cargos_slice(v: &heapless::Vec<Cargo, NUM_PLATFORMS>) -> (r: &[Cargo])
    ensures
        r@ == cargo_list(*v),
{
    v.as_slice()
}

/// `heapless::Vec::push`: appends `c` unless the list is full, in which case
/// `c` comes back and the list is unchanged.
#[verifier::external_body]
pub(crate) fn cargos_push(v: &mut heapless::Vec<Cargo, NUM_PLATFORMS>, c: Cargo) -> (r: Result<(), Cargo>)
    ensures
        cargo_list(*old(v)).len() < NUM_PLATFORMS ==> r is Ok && cargo_list(*final(v)) == cargo_list(*old(v)).push(c),
        cargo_list(*old(v)).len() >= NUM_PLATFORMS ==> (r matches Err(back) && back == c) && cargo_list(*final(v)) == cargo_list(*old(v)),
{
    v.push(c)
}

} // verus!
