//! Locations on the board: every track and platform LED is a node of a fixed
//! graph. Tracks have two neighbors (one per direction), forks three and
//! crosses four; a platform points at the single track next to it.
use vstd::prelude::*;

verus! {

/// Direction of travel out of a node: leaving through the LED's anode side
/// or through its cathode side.
#[derive(Clone, Copy, Debug, PartialEq, Eq, Structural)]
pub enum Direction {
    Anode,
    Cathode,
}

impl Direction {
    pub open spec fn opposite(self) -> Direction {
        match self {
            Direction::Anode => Direction::Cathode,
            Direction::Cathode => Direction::Anode,
        }
    }
}

/// A node of the track graph, named by its LED index.
#[derive(Clone, Copy, Debug, PartialEq, Eq, Structural)]
pub struct Location {
    pub node_index: u8,
}

/// Neighbors of a node; `NO_DATA` marks a missing neighbor.
#[derive(Clone, Copy, Debug, PartialEq, Eq, Structural)]
pub struct LocationNode {
    pub anode_neighbor: u8,
    pub cathode_neighbor: u8,
    pub anode_neighbor_2: u8,
    pub cathode_neighbor_2: u8,
}

pub const NO_DATA: u8 = 0xFF;

pub const NUM_LOCATION_NODES: usize = 144;

pub const NUM_PLATFORMS: usize = 27;

pub const NUM_SWITCHES: usize = 8;

/// The board layout, one packed word per LED: anode neighbor, cathode
/// neighbor, second anode neighbor, second cathode neighbor (high to low byte).
/// Platforms repeat the index of their adjacent track in all four bytes.
pub const NODE_WORDS: [u32; 144] = [
    0x6111FFFF, 0x20202020, 0x3003FFFF, 0x7002FFFF, 0x5082FFFF, 0x60606060,
    0x70707070, 0x8042FFFF, 0x0D69FF1D, 0x682DFFFF, 0x4838FFFF, 0x3B5CFFFF,
    0x1839FFFF, 0x0868FFFF, 0x4C4EFFFF, 0x88888888, 0x4920FFFF, 0x0021FFFF,
    0x2933FFFF, 0x53535353, 0x5154FFFF, 0x61616161, 0x5351FFFF, 0x1E81FFFF,
    0x4F0CFFFF, 0x594AFFFF, 0x39393939, 0x6949FFFF, 0x59595959, 0x0848FFFF,
    0x171FFFFF, 0x1E5FFFFF, 0x6010FFFF, 0x3211FFFF, 0x6230FFFF, 0x73737373,
    0x5276FFFF, 0x6362FFFF, 0x5272FFFF, 0x8289428C, 0x09090909, 0x2B12FFFF,
    0x6A6BFF3D, 0x294EFFFF, 0x5A5A5A5A, 0x096AFFFF, 0x8D7AFFFF, 0x8A7AFFFF,
    0x2202FFFF, 0x12121212, 0x2162FFFF, 0x8312FFFF, 0x5350FFFF, 0x6336FFFF,
    0x7335FFFF, 0x8447FFFF, 0x390AFFFF, 0x380CFFFF, 0x5B5B5B5B, 0x0B4DFFFF,
    0x5D5D5D5D, 0x2A6FFFFF, 0x7B6FFFFF, 0x8B8EFFFF, 0x03030303, 0x16161616,
    0x0727FFFF, 0x72727272, 0x5455FFFF, 0x6764FFFF, 0x8774FFFF, 0x8537FF83,
    0x1D0AFFFF, 0x1B10FFFF, 0x194EFFFF, 0x3B3B3B3B, 0x6E0EFFFF, 0x3B88FFFF,
    0x2B0E4A78, 0x188CFFFF, 0x0434FFFF, 0x1614FFFF, 0x2426FFFF, 0x3416FFFF,
    0x1444FFFF, 0x4466FFFF, 0x87878787, 0x7785FFFF, 0x0C0C0C0C, 0x7F19FFFF,
    0x5B8AFFFF, 0x5D5AFFFF, 0x780BFFFF, 0x5B6DFFFF, 0x8D5FFFFF, 0x5E1FFFFF,
    0x6120FFFF, 0x6000FFFF, 0x2532FF22, 0x2535FFFF, 0x4565FFFF, 0x6664FFFF,
    0x657655FF, 0x4574FFFF, 0x0D09FFFF, 0x1B08FFFF, 0x2D2AFFFF, 0x8E2AFFFF,
    0x4D4D4D4D, 0x8B5DFFFF, 0x8F4CFFFF, 0x3E3DFFFF, 0x0380FFFF, 0x51515151,
    0x7326FFFF, 0x7236FFFF, 0x4667FFFF, 0x46464646, 0x6624FFFF, 0x8757FFFF,
    0x4E5CFFFF, 0x1E1E1E1E, 0x2E2FFFFF, 0x883EFFFF, 0x17171717, 0x7F8DFFFF,
    0x6E6E6E6E, 0x7D59FFFF, 0x7007FFFF, 0x8417FFFF, 0x0427FFFF, 0x4733FFFF,
    0x8137FFFF, 0x5747FFFF, 0x74747474, 0x4677FFFF, 0x7B4DFFFF, 0x8F27FFFF,
    0x2F5AFFFF, 0x6D3FFFFF, 0x4F27FFFF, 0x2E5EFF7D, 0x6B3FFFFF, 0x896EFFFF,
];

/// The packed word of node `i`; out-of-range indices read as "no data".
pub open spec fn node_word(i: int) -> u32 {
    if 0 <= i < 144 {
        NODE_WORDS@[i]
    } else {
        0xFFFF_FFFF
    }
}

pub open spec fn unpack(data: u32) -> LocationNode {
    LocationNode {
        anode_neighbor: (data / 0x100_0000) as u8,
        cathode_neighbor: ((data / 0x1_0000) % 0x100) as u8,
        anode_neighbor_2: ((data / 0x100) % 0x100) as u8,
        cathode_neighbor_2: (data % 0x100) as u8,
    }
}

pub open spec fn node(i: int) -> LocationNode {
    unpack(node_word(i))
}

pub open spec fn is_platform_node(n: LocationNode) -> bool {
    n.anode_neighbor == n.cathode_neighbor
}

pub open spec fn is_switch_node(n: LocationNode) -> bool {
    !is_platform_node(n) && (n.anode_neighbor_2 != NO_DATA || n.cathode_neighbor_2 != NO_DATA)
}

/// A cross: a track node that forks in both directions.
pub open spec fn is_cross_node(n: LocationNode) -> bool {
    !is_platform_node(n) && n.anode_neighbor_2 != NO_DATA && n.cathode_neighbor_2 != NO_DATA
}

/// Indices of the cross nodes below `n`, in increasing order.
pub open spec fn crosses_below(n: int) -> Seq<u8>
    decreases n,
{
    if n <= 0 {
        Seq::empty()
    } else if is_cross_node(node(n - 1)) {
        crosses_below(n - 1).push((n - 1) as u8)
    } else {
        crosses_below(n - 1)
    }
}

impl Location {
    /// The location names an LED of the board.
    pub open spec fn wf(self) -> bool {
        self.node_index < NUM_LOCATION_NODES
    }

    pub open spec fn data(self) -> LocationNode {
        node(self.node_index as int)
    }

    pub open spec fn is_platform(self) -> bool {
        is_platform_node(self.data())
    }

    pub open spec fn is_switch(self) -> bool {
        is_switch_node(self.data())
    }

    /// Where a train at this location goes when it leaves in `direction`,
    /// and the direction in which it will leave that next location.
    pub open spec fn next_spec(self, direction: Direction, is_switched: bool) -> (Location, Direction) {
        let d = self.data();
        if is_platform_node(d) {
            (Location { node_index: d.anode_neighbor }, Direction::Anode)
        } else {
            let first = match direction {
                Direction::Anode => d.anode_neighbor,
                Direction::Cathode => d.cathode_neighbor,
            };
            let second = match direction {
                Direction::Anode => d.anode_neighbor_2,
                Direction::Cathode => d.cathode_neighbor_2,
            };
            let n = if is_switched && second != NO_DATA { second } else { first };
            let nd = node(n as int);
            let dir = if nd.cathode_neighbor == self.node_index || nd.cathode_neighbor_2 == self.node_index {
                Direction::Anode
            } else {
                Direction::Cathode
            };
            (Location { node_index: n }, dir)
        }
    }
}

/// Everything the game relies on about node `i` of the layout.
pub open spec fn node_ok(i: int) -> bool {
    let loc = Location { node_index: i as u8 };
    let d = node(i);
    if is_platform_node(d) {
        &&& d.anode_neighbor == d.anode_neighbor_2
        &&& d.anode_neighbor == d.cathode_neighbor_2
        &&& d.anode_neighbor < NUM_LOCATION_NODES
        &&& !is_platform_node(node(d.anode_neighbor as int))
    } else {
        &&& d.anode_neighbor != d.cathode_neighbor
        &&& is_switch_node(d) ==> (loc.next_spec(Direction::Anode, false).0 != loc.next_spec(
            Direction::Anode,
            true,
        ).0 || loc.next_spec(Direction::Cathode, false).0 != loc.next_spec(Direction::Cathode, true).0)
        &&& step_ok(loc, Direction::Anode, false)
        &&& step_ok(loc, Direction::Anode, true)
        &&& step_ok(loc, Direction::Cathode, false)
        &&& step_ok(loc, Direction::Cathode, true)
    }
}

/// A step from a track stays on the tracks and can be undone.
pub open spec fn step_ok(loc: Location, direction: Direction, is_switched: bool) -> bool {
    let (n, nd) = loc.next_spec(direction, is_switched);
    &&& n.wf()
    &&& !n.is_platform()
    &&& (n.next_spec(nd.opposite(), false).0 == loc || n.next_spec(nd.opposite(), true).0 == loc)
}

/// Indices of the nodes below `n` that satisfy `is_platform_node`, in increasing order.
pub open spec fn platforms_below(n: int) -> Seq<u8>
    decreases n,
{
    if n <= 0 {
        Seq::empty()
    } else if is_platform_node(node(n - 1)) {
        platforms_below(n - 1).push((n - 1) as u8)
    } else {
        platforms_below(n - 1)
    }
}

/// Indices of the switch and cross nodes below `n`, in increasing order.
pub open spec fn switches_below(n: int) -> Seq<u8>
    decreases n,
{
    if n <= 0 {
        Seq::empty()
    } else if is_switch_node(node(n - 1)) {
        switches_below(n - 1).push((n - 1) as u8)
    } else {
        switches_below(n - 1)
    }
}

/// Each listed switch index is a switch node below `n`.
pub proof fn lemma_switches_below(n: int, k: int)
    requires
        0 <= k < switches_below(n).len(),
    ensures
        0 <= switches_below(n)[k] < n,
        switches_below(n)[k] < 256,
        is_switch_node(node(switches_below(n)[k] as int)),
    decreases n,
{
    if n > 0 {
        if k < switches_below(n - 1).len() {
            lemma_switches_below(n - 1, k);
        }
    }
}

/// Each listed platform index is a platform node below `n`.
pub proof fn lemma_platforms_below(n: int, k: int)
    requires
        0 <= k < platforms_below(n).len(),
        n <= 256,
    ensures
        0 <= platforms_below(n)[k] < n,
        is_platform_node(node(platforms_below(n)[k] as int)),
    decreases n,
{
    if n > 0 {
        if k < platforms_below(n - 1).len() {
            lemma_platforms_below(n - 1, k);
        }
    }
}

/// The order in which the switch buttons sit on the board, as positions in
/// the ascending list of switch nodes.
pub const SWITCH_ORDER: [usize; 8] = [6, 5, 3, 1, 4, 7, 0, 2];

pub fn unpack_node_data(data: u32) -> (r: LocationNode)
    ensures
        r == unpack(data),
{
    proof {
        assert(((data >> 24u32) & 0xFFu32) == data / 0x100_0000
            && ((data >> 16u32) & 0xFFu32) == (data / 0x1_0000) % 0x100
            && ((data >> 8u32) & 0xFFu32) == (data / 0x100) % 0x100
            && (data & 0xFFu32) == data % 0x100) by (bit_vector);
    }
    LocationNode {
        anode_neighbor: ((data >> 24u32) & 0xFFu32) as u8,
        cathode_neighbor: ((data >> 16u32) & 0xFFu32) as u8,
        anode_neighbor_2: ((data >> 8u32) & 0xFFu32) as u8,
        cathode_neighbor_2: (data & 0xFFu32) as u8,
    }
}

impl From<u32> for LocationNode {
    /// The node packed in `data` (see `unpack_node_data`).
    fn from(data: u32) -> (r: Self) {
        unpack_node_data(data)
    }
}

impl vstd::std_specs::convert::FromSpecImpl<u32> for LocationNode {
    open spec fn obeys_from_spec() -> bool {
        true
    }

    open spec fn from_spec(v: u32) -> Self {
        unpack(v)
    }
}

impl Default for LocationNode {
    fn default() -> (r: Self)
        ensures
            r == unpack(0xFFFF_FFFF),
    {
        LocationNode {
            anode_neighbor: NO_DATA,
            cathode_neighbor: NO_DATA,
            anode_neighbor_2: NO_DATA,
            cathode_neighbor_2: NO_DATA,
        }
    }
}

/// The neighbors of node `index`; an index off the board has none.
pub fn get_node_data(index: usize) -> (r: LocationNode)
    ensures
        r == node(index as int),
{
    if index < NUM_LOCATION_NODES {
        unpack_node_data(NODE_WORDS[index])
    } else {
        LocationNode::default()
    }
}

/// Platforms are encoded with all neighbor fields equal.
pub fn is_node_platform(location: LocationNode) -> (r: bool)
    ensures
        r == is_platform_node(location),
{
    location.anode_neighbor == location.cathode_neighbor
}

/// Switches and crosses are tracks with a second neighbor in some direction.
pub fn is_node_switch(location: LocationNode) -> (r: bool)
    ensures
        r == is_switch_node(location),
{
    !is_node_platform(location) && (location.anode_neighbor_2 != NO_DATA
        || location.cathode_neighbor_2 != NO_DATA)
}

impl LocationNode {
    pub fn is_platform(&self) -> (r: bool)
        ensures
            r == is_platform_node(*self),
    {
        is_node_platform(*self)
    }
}

impl Default for Location {
    fn default() -> (r: Self)
        ensures
            r.node_index == NO_DATA,
    {
        Location { node_index: NO_DATA }
    }
}

impl Location {
    pub fn new(node_index: u8) -> (r: Self)
        requires
            node_index < NUM_LOCATION_NODES,
        ensures
            r.node_index == node_index,
            r.wf(),
    {
        Location { node_index }
    }

    pub fn index(&self) -> (r: u8)
        ensures
            r == self.node_index,
    {
        self.node_index
    }

    /// Returns the next location in the given direction, ignoring the resulting direction.
    pub fn next_loc(&self, direction: Direction, is_switched: bool) -> (r: Location)
        requires
            self.wf(),
        ensures
            r == self.next_spec(direction, is_switched).0,
            r.wf(),
    {
        let (loc, _) = self.next(direction, is_switched);
        loc
    }

    /// Returns the next location in the given direction and the direction of
    /// travel out of it. Takes the fork when `is_switched` and a fork exists;
    /// a platform leads to its adjacent track.
    pub fn next(&self, direction: Direction, is_switched: bool) -> (r: (Location, Direction))
        requires
            self.wf(),
        ensures
            r == self.next_spec(direction, is_switched),
            r.0.wf(),
    {
        proof {
            crate::layout::lemma_node_ok(self.node_index as int);
        }
        let loc_data = self.location_data();

        if loc_data.is_platform() {
            return (Location { node_index: loc_data.anode_neighbor }, Direction::Anode);
        }
        let (next_index, next_index_2) = match direction {
            Direction::Anode => (loc_data.anode_neighbor, loc_data.anode_neighbor_2),
            Direction::Cathode => (loc_data.cathode_neighbor, loc_data.cathode_neighbor_2),
        };

        // the fork is taken only where one exists
        let use_switch_index = is_switched && next_index_2 != NO_DATA;
        let next_index = if next_index_2 != NO_DATA && use_switch_index {
            next_index_2
        } else {
            next_index
        };
        proof {
            assert(step_ok(*self, direction, is_switched));
        }

        // leave the next location away from the one we came from
        let next_loc_data = get_node_data(next_index as usize);
        let next_direction = if next_loc_data.cathode_neighbor == self.node_index
            || next_loc_data.cathode_neighbor_2 == self.node_index {
            Direction::Anode
        } else {
            Direction::Cathode
        };

        (Location::new(next_index), next_direction)
    }

    /// The platform locations in increasing order of LED index.
    pub fn platform_locs() -> (r: Vec<Location>)
        ensures
            r@.len() == platforms_below(NUM_LOCATION_NODES as int).len(),
            forall|k: int|
                0 <= k < r@.len() ==> r@[k].node_index == #[trigger] platforms_below(
                    NUM_LOCATION_NODES as int,
                )[k],
    {
        let mut locs: Vec<Location> = Vec::new();
        let mut index: usize = 0;
        while index < NUM_LOCATION_NODES
            invariant
                index <= NUM_LOCATION_NODES,
                locs@.len() == platforms_below(index as int).len(),
                forall|k: int|
                    0 <= k < locs@.len() ==> locs@[k].node_index == #[trigger] platforms_below(
                        index as int,
                    )[k],
            decreases NUM_LOCATION_NODES - index,
        {
            if is_node_platform(get_node_data(index)) {
                locs.push(Location { node_index: index as u8 });
            }
            index += 1;
        }
        locs
    }

    /// The switch and cross locations, ordered as their buttons sit on the board.
    pub fn switch_locs() -> (r: Vec<Location>)
        ensures
            r@.len() == NUM_SWITCHES,
            forall|k: int|
                0 <= k < NUM_SWITCHES ==> r@[k].node_index == #[trigger] switches_below(
                    NUM_LOCATION_NODES as int,
                )[SWITCH_ORDER@[k] as int],
    {
        proof {
            crate::layout::lemma_switches_count();
        }
        let mut ordered: Vec<u8> = Vec::new();
        let mut index: usize = 0;
        while index < NUM_LOCATION_NODES
            invariant
                index <= NUM_LOCATION_NODES,
                ordered@ == switches_below(index as int),
            decreases NUM_LOCATION_NODES - index,
        {
            if is_node_switch(get_node_data(index)) {
                ordered.push(index as u8);
            }
            index += 1;
        }
        let mut locs: Vec<Location> = Vec::new();
        let mut k: usize = 0;
        while k < NUM_SWITCHES
            invariant
                k <= NUM_SWITCHES,
                ordered@ == switches_below(NUM_LOCATION_NODES as int),
                ordered@.len() == NUM_SWITCHES,
                locs@.len() == k,
                forall|j: int|
                    0 <= j < k ==> locs@[j].node_index == #[trigger] ordered@[SWITCH_ORDER@[j] as int],
            decreases NUM_SWITCHES - k,
        {
            let position = SWITCH_ORDER[k];
            proof {
                assert(SWITCH_ORDER@ == seq![6usize, 5, 3, 1, 4, 7, 0, 2]);
            }
            locs.push(Location { node_index: ordered[position] });
            k += 1;
        }
        locs
    }

    pub fn location_data(&self) -> (r: LocationNode)
        ensures
            r == self.data(),
    {
        get_node_data(self.node_index as usize)
    }
}

} // verus!
