//! Seven-segment encodings, as the AS1115 display driver crate defines them.
use vstd::prelude::*;

verus! {

/// The driver's encodings of the hexadecimal digits 0 to F.
pub open spec fn number_table() -> Seq<u8> {
    seq![
        0x7Eu8, 0x30, 0x6D, 0x79, 0x33, 0x5B, 0x5F, 0x70, 0x7F, 0x7B, 0x77, 0x1F, 0x4E, 0x3D, 0x4F, 0x47,
    ]
}

/// The driver's encodings of the letters A to Z.
pub open spec fn letter_table() -> Seq<u8> {
    seq![
        0x77u8, 0x1F, 0x4E, 0x3D, 0x4F, 0x47, 0x5E, 0x37, 0x30, 0x3C, 0x2F, 0x0E, 0x54, 0x15, 0x1D, 0x67,
        0x73, 0x05, 0x5B, 0x0F, 0x3E, 0x1C, 0x2A, 0x49, 0x3B, 0x25,
    ]
}

/// The driver's encoding of an ASCII character: digits and letters of
/// either case, anything else blank.
pub open spec fn ascii_segment(c: u8) -> u8 {
    if 48 <= c <= 57 {
        number_table()[c - 48]
    } else if 97 <= c <= 122 {
        letter_table()[c - 97]
    } else if 65 <= c <= 90 {
        letter_table()[c - 65]
    } else {
        0
    }
}

/// `as1115::ascii_to_segment` looks the character up in the driver's
/// digit and letter tables and gives 0 for anything else.
pub assume_specification[as1115::ascii_to_segment](c: u8) -> (r: u8)
    ensures
        r == ascii_segment(c),
;

/// The segment bits of the display: the seven strokes A (top) to G
/// (middle) and the decimal point.
#[derive(Clone, Copy, Debug)]
pub struct SegmentBits {
    pub a: u8,
    pub b: u8,
    pub c: u8,
    pub d: u8,
    pub e: u8,
    pub f: u8,
    pub g: u8,
    pub dp: u8,
}

/// The bit values the driver uses for each stroke.
pub open spec fn standard_bits(s: SegmentBits) -> bool {
    &&& s.a == 0x40
    &&& s.b == 0x20
    &&& s.c == 0x10
    &&& s.d == 0x08
    &&& s.e == 0x04
    &&& s.f == 0x02
    &&& s.g == 0x01
    &&& s.dp == 0x80
}

/// Reads the stroke constants of `as1115::segments`; the contract states
/// the values that module defines.
#[verifier::external_body]
pub(crate) fn segment_bits() -> (r: SegmentBits)
    ensures
        standard_bits(r),
{
    SegmentBits {
        a: as1115::segments::A,
        b: as1115::segments::B,
        c: as1115::segments::C,
        d: as1115::segments::D,
        e: as1115::segments::E,
        f: as1115::segments::F,
        g: as1115::segments::G,
        dp: as1115::segments::DP,
    }
}

/// Reads entry `digit` of `as1115::NUMBERS`; the contract states the table
/// the driver defines.
#[verifier::external_body]
pub(crate) fn number_segments(digit: usize) -> (r: u8)
    requires
        digit < 16,
    ensures
        r == number_table()[digit as int],
{
    as1115::NUMBERS[digit]
}

} // verus!
