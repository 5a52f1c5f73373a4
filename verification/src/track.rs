//! The packed neighbor record of a track LED.
use vstd::prelude::*;

verus! {

/// The four neighbor bytes of a track LED, unpacked from one word.
#[derive(Clone, Copy, Debug, PartialEq, Eq, Structural)]
pub struct Track {
    pub anode_next_loc: u8,
    pub cathode_next_loc: u8,
    pub anode_next_loc2: u8,
    pub cathode_next_loc2: u8,
}

/// Unpacks a neighbor word, most significant byte first.
pub fn unpack_track(data: u32) -> (r: Track)
    ensures
        r.anode_next_loc == data / 0x100_0000,
        r.cathode_next_loc == (data / 0x1_0000) % 0x100,
        r.anode_next_loc2 == (data / 0x100) % 0x100,
        r.cathode_next_loc2 == data % 0x100,
{
    proof {
        assert(((data >> 24u32) & 0xFFu32) == data / 0x100_0000
            && ((data >> 16u32) & 0xFFu32) == (data / 0x1_0000) % 0x100
            && ((data >> 8u32) & 0xFFu32) == (data / 0x100) % 0x100
            && (data & 0xFFu32) == data % 0x100) by (bit_vector);
    }
    Track {
        anode_next_loc: ((data >> 24u32) & 0xFFu32) as u8,
        cathode_next_loc: ((data >> 16u32) & 0xFFu32) as u8,
        anode_next_loc2: ((data >> 8u32) & 0xFFu32) as u8,
        cathode_next_loc2: (data & 0xFFu32) as u8,
    }
}

} // verus!
