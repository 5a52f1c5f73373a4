//! The board's pseudo-random number generator: a 32-bit linear congruential
//! generator whose state is handed out one little-endian byte at a time.
use vstd::prelude::*;

verus! {

/// The generator state: the current 32-bit value and the index of the next
/// of its four bytes to hand out.
#[derive(Clone, Copy, Debug, PartialEq, Eq, Structural)]
pub struct RngState {
    pub value: u32,
    pub index: usize,
}

/// A source of random bytes.
#[derive(Clone, Copy, Debug)]
pub struct Rand {
    pub state: RngState,
}

/// One step of the generator.
pub open spec fn lcg(v: u32) -> u32 {
    ((v * 1664525 + 1013904223) % 0x1_0000_0000) as u32
}

/// Byte `i` (little-endian) of `v`.
pub open spec fn byte_of(v: u32, i: int) -> u8 {
    if i == 0 {
        (v % 0x100) as u8
    } else if i == 1 {
        ((v / 0x100) % 0x100) as u8
    } else if i == 2 {
        ((v / 0x1_0000) % 0x100) as u8
    } else {
        ((v / 0x100_0000) % 0x100) as u8
    }
}

impl RngState {
    pub open spec fn wf(self) -> bool {
        self.index < 4
    }

    /// The next byte handed out.
    pub open spec fn peek(self) -> u8 {
        byte_of(self.value, self.index as int)
    }

    /// The state after handing out one byte.
    pub open spec fn advance(self) -> RngState {
        if self.index + 1 >= 4 {
            RngState { value: lcg(self.value), index: 0 }
        } else {
            RngState { value: self.value, index: (self.index + 1) as usize }
        }
    }

    /// The next `n` bytes handed out.
    pub open spec fn bytes(self, n: nat) -> Seq<u8>
        decreases n,
    {
        if n == 0 {
            Seq::empty()
        } else {
            seq![self.peek()] + self.advance().bytes((n - 1) as nat)
        }
    }

    /// The state after handing out `n` bytes.
    pub open spec fn skip(self, n: nat) -> RngState
        decreases n,
    {
        if n == 0 {
            self
        } else {
            self.advance().skip((n - 1) as nat)
        }
    }
}

/// The low byte of the generator follows `x -> 13 x + 95 (mod 256)`.
pub open spec fn low_step(x: u8) -> u8 {
    ((x * 13 + 95) % 256) as u8
}

/// Number of generator steps until the low byte drops below 128 (at most six).
pub open spec fn low_distance(x: u8) -> nat {
    if x < 128 {
        0
    } else if low_step(x) < 128 {
        1
    } else if low_step(low_step(x)) < 128 {
        2
    } else if low_step(low_step(low_step(x))) < 128 {
        3
    } else if low_step(low_step(low_step(low_step(x)))) < 128 {
        4
    } else if low_step(low_step(low_step(low_step(low_step(x))))) < 128 {
        5
    } else if low_step(low_step(low_step(low_step(low_step(low_step(x)))))) < 128 {
        6
    } else {
        7
    }
}

/// Bytes still to be handed out before a byte below 128 must appear.
pub open spec fn rejection_bound(s: RngState) -> nat {
    if s.index == 0 {
        4 * low_distance((s.value % 0x100) as u8)
    } else {
        (4 - s.index) as nat + 4 * low_distance((lcg(s.value) % 0x100) as u8)
    }
}

proof fn lemma_low_step(v: u32)
    ensures
        lcg(v) % 0x100 == low_step((v % 0x100) as u8),
{
    let w = v.wrapping_mul(1664525u32).wrapping_add(1013904223u32);
    assert(w % 256 == (((v % 256) * 13 + 95) % 256) as u32) by (bit_vector)
        requires
            w == v.wrapping_mul(1664525u32).wrapping_add(1013904223u32),
    ;
    lemma_lcg_wrapping(v);
}

proof fn lemma_lcg_wrapping(v: u32)
    ensures
        v.wrapping_mul(1664525u32).wrapping_add(1013904223u32) == lcg(v),
{
    let m = (v * 1664525) % 0x1_0000_0000int;
    vstd::arithmetic::div_mod::lemma_add_mod_noop(v * 1664525, 1013904223, 0x1_0000_0000int);
    assert(1013904223int % 0x1_0000_0000int == 1013904223);
    assert(m % 0x1_0000_0000int == m) by {
        vstd::arithmetic::div_mod::lemma_mod_twice(v * 1664525, 0x1_0000_0000int);
    }
}

/// Handing out `n + 1` bytes is handing out `n` and then one more.
pub proof fn lemma_bytes_snoc(s: RngState, n: nat)
    ensures
        s.bytes(n + 1) == s.bytes(n).push(s.skip(n).peek()),
        s.skip(n + 1) == s.skip(n).advance(),
        s.bytes(n).len() == n,
    decreases n,
{
    if n > 0 {
        lemma_bytes_snoc(s.advance(), (n - 1) as nat);
        assert(s.skip(n) == s.advance().skip((n - 1) as nat));
        assert(s.skip(n + 1) == s.advance().skip(n));
        assert(s.bytes(n + 1) =~= seq![s.peek()] + s.advance().bytes(n));
        assert(s.bytes(n + 1) =~= s.bytes(n).push(s.skip(n).peek()));
    } else {
        assert(s.advance().bytes(0) =~= Seq::<u8>::empty());
        assert(s.advance().skip(0) == s.advance());
        assert(s.bytes(1) =~= seq![s.peek()]);
    }
}

/// The generator never leaves a well-formed state.
pub proof fn lemma_skip_wf(s: RngState, n: nat)
    requires
        s.wf(),
    ensures
        s.skip(n).wf(),
    decreases n,
{
    if n > 0 {
        lemma_skip_wf(s.advance(), (n - 1) as nat);
    }
}

proof fn lemma_low_distance(x: u8)
    requires
        x >= 128,
    ensures
        low_distance(x) == 1 + low_distance(low_step(x)),
{
    assert(x >= 128 ==> low_distance(x) == 1 + low_distance(low_step(x))) by (bit_vector);
}

/// Every byte handed out while the rejection bound is positive and the byte
/// is at least 128 makes the bound shrink by one.
proof fn lemma_rejection_bound(s: RngState)
    requires
        s.wf(),
        s.peek() >= 128,
    ensures
        rejection_bound(s.advance()) + 1 == rejection_bound(s),
{
    if s.index == 0 {
        lemma_low_step(s.value);
        lemma_low_distance((s.value % 0x100) as u8);
    } else if s.index == 3 {
        lemma_low_step(s.value);
    }
}

/// The byte at the front of the stream, and the state after it.
pub open spec fn next_byte(s: RngState) -> (u8, RngState) {
    (s.peek(), s.advance())
}

/// The first byte of the stream below `bound` (rejection sampling), and the
/// state after it. Defined for bounds of at least 128, which always occur.
pub open spec fn first_below(s: RngState, bound: u8) -> (u8, RngState)
    decreases rejection_bound(s),
    when s.wf() && bound >= 128
    via first_below_decreases
{
    if s.peek() < bound {
        (s.peek(), s.advance())
    } else {
        first_below(s.advance(), bound)
    }
}

#[via_fn]
proof fn first_below_decreases(s: RngState, bound: u8) {
    if s.peek() >= bound {
        lemma_rejection_bound(s);
    }
}

impl Rand {
    pub open spec fn wf(self) -> bool {
        self.state.wf()
    }

    /// A generator started from `seed`.
    pub fn seed(seed: u32) -> (r: Rand)
        ensures
            r.state == (RngState { value: seed, index: 0 }),
    {
        Rand { state: RngState { value: seed, index: 0 } }
    }

    /// Hands out the next byte of the stream.
    pub fn get_u8(&mut self) -> (r: u8)
        requires
            old(self).wf(),
        ensures
            final(self).wf(),
            r == old(self).state.peek(),
            final(self).state == old(self).state.advance(),
    {
        let v = self.state.value;
        let b: u8 = match self.state.index {
            0 => (v & 0xFFu32) as u8,
            1 => ((v >> 8u32) & 0xFFu32) as u8,
            2 => ((v >> 16u32) & 0xFFu32) as u8,
            _ => ((v >> 24u32) & 0xFFu32) as u8,
        };
        proof {
            assert((v & 0xFFu32) == v % 0x100 && ((v >> 8u32) & 0xFFu32) == (v / 0x100) % 0x100
                && ((v >> 16u32) & 0xFFu32) == (v / 0x1_0000) % 0x100 && ((v >> 24u32) & 0xFFu32)
                == (v / 0x100_0000) % 0x100) by (bit_vector);
        }
        if self.state.index + 1 == 4 {
            let next = v.wrapping_mul(1664525).wrapping_add(1013904223);
            proof {
                lemma_lcg_wrapping(v);
            }
            self.state = RngState { value: next, index: 0 };
        } else {
            self.state = RngState { value: v, index: self.state.index + 1 };
        }
        b
    }

    /// Fills `buf` with the next `buf.len()` bytes of the stream.
    pub fn try_fill_bytes(&mut self, buf: &mut Vec<u8>) -> (r: Result<(), ()>)
        requires
            old(self).wf(),
        ensures
            r is Ok,
            final(self).wf(),
            final(buf)@ == old(self).state.bytes(old(buf)@.len()),
            final(self).state == old(self).state.skip(old(buf)@.len()),
    {
        let n = buf.len();
        let mut i: usize = 0;
        while i < n
            invariant
                self.wf(),
                0 <= i <= n,
                n == buf@.len() == old(buf)@.len(),
                forall|k: int| 0 <= k < i ==> buf@[k] == #[trigger] old(self).state.bytes(i as nat)[k],
                self.state == old(self).state.skip(i as nat),
            decreases n - i,
        {
            proof {
                lemma_bytes_snoc(old(self).state, i as nat);
            }
            let b = self.get_u8();
            buf.set(i, b);
            i += 1;
        }
        proof {
            lemma_bytes_snoc(old(self).state, n as nat);
            assert(buf@ =~= old(self).state.bytes(n as nat));
        }
        Ok(())
    }

    /// Two bytes of the stream read as a little-endian `u16`.
    pub fn get_u16(&mut self) -> (r: u16)
        requires
            old(self).wf(),
        ensures
            final(self).wf(),
            r == old(self).state.bytes(2)[0] + 256 * old(self).state.bytes(2)[1],
            final(self).state == old(self).state.skip(2),
            (r, final(self).state) == u16_draw(old(self).state),
    {
        proof {
            lemma_bytes_snoc(old(self).state, 0);
            lemma_bytes_snoc(old(self).state, 1);
            assert(old(self).state.skip(0) == old(self).state);
        }
        let lo = self.get_u8();
        let hi = self.get_u8();
        (lo as u16) + (hi as u16) * 256
    }

    /// A random boolean as the outside `Random::get_bool` computes it: the
    /// high bit of one byte compared with 1, which is never equal, so the
    /// answer is always `false` (one byte is consumed all the same). That
    /// method also holds a `debug_assert!(bit < 2)`, which fails in a debug
    /// build whenever the drawn byte has its high bit set; this function
    /// has no such check and answers `false` for every byte, as a release
    /// build of that method does.
    pub fn get_bool(&mut self) -> (r: bool)
        requires
            old(self).wf(),
        ensures
            final(self).wf(),
            r == false,
            final(self).state == old(self).state.advance(),
    {
        let byte = self.get_u8();
        let bit = byte & 0b1000_0000u8;
        proof {
            assert((byte & 0b1000_0000u8) == 0 || (byte & 0b1000_0000u8) == 0x80) by (bit_vector);
        }
        bit == 1
    }

    /// A random value in `min..=max`, drawn without modulo bias by rejecting
    /// bytes at or above the largest multiple of the span; the whole byte
    /// range takes the next byte as it is.
    pub fn from_range(&mut self, min: u8, max: u8) -> (r: u8)
        requires
            old(self).wf(),
            min <= max,
        ensures
            final(self).wf(),
            min <= r <= max,
            max - min == 255 ==> r == old(self).state.peek() && final(self).state == old(self).state.advance(),
            max - min < 255 ==> ({
                let span = (max - min + 1) as u8;
                let (b, st) = first_below(old(self).state, rejection_limit(span));
                &&& r == min + b % span
                &&& final(self).state == st
            }),
            (r, final(self).state) == range_draw(old(self).state, min, max),
    {
        if max - min == 255 {
            return self.get_u8();
        }
        let span: u8 = max - min + 1;
        let span_max: u8 = 255 - (255 % span);
        proof {
            lemma_span_max(span);
        }
        loop
            invariant
                self.wf(),
                span == max - min + 1,
                1 <= span <= 255,
                span_max == rejection_limit(span),
                span_max >= 128,
                first_below(self.state, span_max) == first_below(old(self).state, span_max),
            decreases rejection_bound(self.state),
        {
            let ghost before = self.state;
            let value = self.get_u8();
            if value < span_max {
                return min + (value % span);
            }
            proof {
                lemma_rejection_bound(before);
            }
        }
    }
}

/// A `u16` drawn from the stream (two bytes, little-endian) and the state after it.
pub open spec fn u16_draw(s: RngState) -> (u16, RngState) {
    ((s.bytes(2)[0] + 256 * s.bytes(2)[1]) as u16, s.skip(2))
}

/// A value of `min..=max` drawn by `from_range`, and the state after it.
pub open spec fn range_draw(s: RngState, min: u8, max: u8) -> (u8, RngState) {
    if max - min == 255 {
        (s.peek(), s.advance())
    } else {
        let span = (max - min + 1) as u8;
        let (b, st) = first_below(s, rejection_limit(span));
        ((min + b % span) as u8, st)
    }
}

/// The largest multiple of `span` that fits in a byte, as the firmware computes it.
pub open spec fn rejection_limit(span: u8) -> u8 {
    (255 - 255u8 % span) as u8
}

proof fn lemma_span_max(span: u8)
    requires
        1 <= span,
    ensures
        rejection_limit(span) >= 128,
        rejection_limit(span) == 255 - 255u8 % span,
{
    assert(1 <= span ==> 255 - 255u8 % span >= 128) by (bit_vector);
}

impl Default for Rand {
    /// The generator before it is seeded.
    fn default() -> (r: Rand)
        ensures
            r.state == (RngState { value: 0, index: 0 }),
    {
        Rand { state: RngState { value: 0, index: 0 } }
    }
}

} // verus!
