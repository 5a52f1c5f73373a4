//! Facts about the fixed board layout, checked node by node.
use vstd::prelude::*;

use crate::location::{crosses_below, is_platform_node, node, Direction, Location, node_ok, platforms_below, step_ok, switches_below, NUM_LOCATION_NODES, NUM_PLATFORMS, NUM_SWITCHES};

verus! {

/// The layout is checked node by node, a few nodes per proof.

#[verifier::rlimit(50)]
proof fn lemma_nodes_0_4(i: int)
    requires
        0 <= i < 4,
    ensures
        node_ok(i),
{
    if i == 0 {
        assert(node_ok(0));
    } else if i == 1 {
        assert(node_ok(1));
    } else if i == 2 {
        assert(node_ok(2));
    } else {
        assert(node_ok(3));
    }
}

#[verifier::rlimit(50)]
proof fn lemma_nodes_4_8(i: int)
    requires
        4 <= i < 8,
    ensures
        node_ok(i),
{
    if i == 4 {
        assert(node_ok(4));
    } else if i == 5 {
        assert(node_ok(5));
    } else if i == 6 {
        assert(node_ok(6));
    } else {
        assert(node_ok(7));
    }
}

#[verifier::rlimit(50)]
proof fn lemma_nodes_8_12(i: int)
    requires
        8 <= i < 12,
    ensures
        node_ok(i),
{
    if i == 8 {
        assert(node_ok(8));
    } else if i == 9 {
        assert(node_ok(9));
    } else if i == 10 {
        assert(node_ok(10));
    } else {
        assert(node_ok(11));
    }
}

#[verifier::rlimit(50)]
proof fn lemma_nodes_12_16(i: int)
    requires
        12 <= i < 16,
    ensures
        node_ok(i),
{
    if i == 12 {
        assert(node_ok(12));
    } else if i == 13 {
        assert(node_ok(13));
    } else if i == 14 {
        assert(node_ok(14));
    } else {
        assert(node_ok(15));
    }
}

#[verifier::rlimit(50)]
proof fn lemma_nodes_16_20(i: int)
    requires
        16 <= i < 20,
    ensures
        node_ok(i),
{
    if i == 16 {
        assert(node_ok(16));
    } else if i == 17 {
        assert(node_ok(17));
    } else if i == 18 {
        assert(node_ok(18));
    } else {
        assert(node_ok(19));
    }
}

#[verifier::rlimit(50)]
proof fn lemma_nodes_20_24(i: int)
    requires
        20 <= i < 24,
    ensures
        node_ok(i),
{
    if i == 20 {
        assert(node_ok(20));
    } else if i == 21 {
        assert(node_ok(21));
    } else if i == 22 {
        assert(node_ok(22));
    } else {
        assert(node_ok(23));
    }
}

#[verifier::rlimit(50)]
proof fn lemma_nodes_24_28(i: int)
    requires
        24 <= i < 28,
    ensures
        node_ok(i),
{
    if i == 24 {
        assert(node_ok(24));
    } else if i == 25 {
        assert(node_ok(25));
    } else if i == 26 {
        assert(node_ok(26));
    } else {
        assert(node_ok(27));
    }
}

#[verifier::rlimit(50)]
proof fn lemma_nodes_28_32(i: int)
    requires
        28 <= i < 32,
    ensures
        node_ok(i),
{
    if i == 28 {
        assert(node_ok(28));
    } else if i == 29 {
        assert(node_ok(29));
    } else if i == 30 {
        assert(node_ok(30));
    } else {
        assert(node_ok(31));
    }
}

#[verifier::rlimit(50)]
proof fn lemma_nodes_32_36(i: int)
    requires
        32 <= i < 36,
    ensures
        node_ok(i),
{
    if i == 32 {
        assert(node_ok(32));
    } else if i == 33 {
        assert(node_ok(33));
    } else if i == 34 {
        assert(node_ok(34));
    } else {
        assert(node_ok(35));
    }
}

#[verifier::rlimit(50)]
proof fn lemma_nodes_36_40(i: int)
    requires
        36 <= i < 40,
    ensures
        node_ok(i),
{
    if i == 36 {
        assert(node_ok(36));
    } else if i == 37 {
        assert(node_ok(37));
    } else if i == 38 {
        assert(node_ok(38));
    } else {
        assert(node_ok(39));
    }
}

#[verifier::rlimit(50)]
proof fn lemma_nodes_40_44(i: int)
    requires
        40 <= i < 44,
    ensures
        node_ok(i),
{
    if i == 40 {
        assert(node_ok(40));
    } else if i == 41 {
        assert(node_ok(41));
    } else if i == 42 {
        assert(node_ok(42));
    } else {
        assert(node_ok(43));
    }
}

#[verifier::rlimit(50)]
proof fn lemma_nodes_44_48(i: int)
    requires
        44 <= i < 48,
    ensures
        node_ok(i),
{
    if i == 44 {
        assert(node_ok(44));
    } else if i == 45 {
        assert(node_ok(45));
    } else if i == 46 {
        assert(node_ok(46));
    } else {
        assert(node_ok(47));
    }
}

#[verifier::rlimit(50)]
proof fn lemma_nodes_48_52(i: int)
    requires
        48 <= i < 52,
    ensures
        node_ok(i),
{
    if i == 48 {
        assert(node_ok(48));
    } else if i == 49 {
        assert(node_ok(49));
    } else if i == 50 {
        assert(node_ok(50));
    } else {
        assert(node_ok(51));
    }
}

#[verifier::rlimit(50)]
proof fn lemma_nodes_52_56(i: int)
    requires
        52 <= i < 56,
    ensures
        node_ok(i),
{
    if i == 52 {
        assert(node_ok(52));
    } else if i == 53 {
        assert(node_ok(53));
    } else if i == 54 {
        assert(node_ok(54));
    } else {
        assert(node_ok(55));
    }
}

#[verifier::rlimit(50)]
proof fn lemma_nodes_56_60(i: int)
    requires
        56 <= i < 60,
    ensures
        node_ok(i),
{
    if i == 56 {
        assert(node_ok(56));
    } else if i == 57 {
        assert(node_ok(57));
    } else if i == 58 {
        assert(node_ok(58));
    } else {
        assert(node_ok(59));
    }
}

#[verifier::rlimit(50)]
proof fn lemma_nodes_60_64(i: int)
    requires
        60 <= i < 64,
    ensures
        node_ok(i),
{
    if i == 60 {
        assert(node_ok(60));
    } else if i == 61 {
        assert(node_ok(61));
    } else if i == 62 {
        assert(node_ok(62));
    } else {
        assert(node_ok(63));
    }
}

#[verifier::rlimit(50)]
proof fn lemma_nodes_64_68(i: int)
    requires
        64 <= i < 68,
    ensures
        node_ok(i),
{
    if i == 64 {
        assert(node_ok(64));
    } else if i == 65 {
        assert(node_ok(65));
    } else if i == 66 {
        assert(node_ok(66));
    } else {
        assert(node_ok(67));
    }
}

#[verifier::rlimit(50)]
proof fn lemma_nodes_68_72(i: int)
    requires
        68 <= i < 72,
    ensures
        node_ok(i),
{
    if i == 68 {
        assert(node_ok(68));
    } else if i == 69 {
        assert(node_ok(69));
    } else if i == 70 {
        assert(node_ok(70));
    } else {
        assert(node_ok(71));
    }
}

#[verifier::rlimit(50)]
proof fn lemma_nodes_72_76(i: int)
    requires
        72 <= i < 76,
    ensures
        node_ok(i),
{
    if i == 72 {
        assert(node_ok(72));
    } else if i == 73 {
        assert(node_ok(73));
    } else if i == 74 {
        assert(node_ok(74));
    } else {
        assert(node_ok(75));
    }
}

#[verifier::rlimit(50)]
proof fn lemma_nodes_76_80(i: int)
    requires
        76 <= i < 80,
    ensures
        node_ok(i),
{
    if i == 76 {
        assert(node_ok(76));
    } else if i == 77 {
        assert(node_ok(77));
    } else if i == 78 {
        assert(node_ok(78));
    } else {
        assert(node_ok(79));
    }
}

#[verifier::rlimit(50)]
proof fn lemma_nodes_80_84(i: int)
    requires
        80 <= i < 84,
    ensures
        node_ok(i),
{
    if i == 80 {
        assert(node_ok(80));
    } else if i == 81 {
        assert(node_ok(81));
    } else if i == 82 {
        assert(node_ok(82));
    } else {
        assert(node_ok(83));
    }
}

#[verifier::rlimit(50)]
proof fn lemma_nodes_84_88(i: int)
    requires
        84 <= i < 88,
    ensures
        node_ok(i),
{
    if i == 84 {
        assert(node_ok(84));
    } else if i == 85 {
        assert(node_ok(85));
    } else if i == 86 {
        assert(node_ok(86));
    } else {
        assert(node_ok(87));
    }
}

#[verifier::rlimit(50)]
proof fn lemma_nodes_88_92(i: int)
    requires
        88 <= i < 92,
    ensures
        node_ok(i),
{
    if i == 88 {
        assert(node_ok(88));
    } else if i == 89 {
        assert(node_ok(89));
    } else if i == 90 {
        assert(node_ok(90));
    } else {
        assert(node_ok(91));
    }
}

#[verifier::rlimit(50)]
proof fn lemma_nodes_92_96(i: int)
    requires
        92 <= i < 96,
    ensures
        node_ok(i),
{
    if i == 92 {
        assert(node_ok(92));
    } else if i == 93 {
        assert(node_ok(93));
    } else if i == 94 {
        assert(node_ok(94));
    } else {
        assert(node_ok(95));
    }
}

#[verifier::rlimit(50)]
proof fn lemma_nodes_96_100(i: int)
    requires
        96 <= i < 100,
    ensures
        node_ok(i),
{
    if i == 96 {
        assert(node_ok(96));
    } else if i == 97 {
        assert(node_ok(97));
    } else if i == 98 {
        assert(node_ok(98));
    } else {
        assert(node_ok(99));
    }
}

#[verifier::rlimit(50)]
proof fn lemma_nodes_100_104(i: int)
    requires
        100 <= i < 104,
    ensures
        node_ok(i),
{
    if i == 100 {
        assert(node_ok(100));
    } else if i == 101 {
        assert(node_ok(101));
    } else if i == 102 {
        assert(node_ok(102));
    } else {
        assert(node_ok(103));
    }
}

#[verifier::rlimit(50)]
proof fn lemma_nodes_104_108(i: int)
    requires
        104 <= i < 108,
    ensures
        node_ok(i),
{
    if i == 104 {
        assert(node_ok(104));
    } else if i == 105 {
        assert(node_ok(105));
    } else if i == 106 {
        assert(node_ok(106));
    } else {
        assert(node_ok(107));
    }
}

#[verifier::rlimit(50)]
proof fn lemma_nodes_108_112(i: int)
    requires
        108 <= i < 112,
    ensures
        node_ok(i),
{
    if i == 108 {
        assert(node_ok(108));
    } else if i == 109 {
        assert(node_ok(109));
    } else if i == 110 {
        assert(node_ok(110));
    } else {
        assert(node_ok(111));
    }
}

#[verifier::rlimit(50)]
proof fn lemma_nodes_112_116(i: int)
    requires
        112 <= i < 116,
    ensures
        node_ok(i),
{
    if i == 112 {
        assert(node_ok(112));
    } else if i == 113 {
        assert(node_ok(113));
    } else if i == 114 {
        assert(node_ok(114));
    } else {
        assert(node_ok(115));
    }
}

#[verifier::rlimit(50)]
proof fn lemma_nodes_116_120(i: int)
    requires
        116 <= i < 120,
    ensures
        node_ok(i),
{
    if i == 116 {
        assert(node_ok(116));
    } else if i == 117 {
        assert(node_ok(117));
    } else if i == 118 {
        assert(node_ok(118));
    } else {
        assert(node_ok(119));
    }
}

#[verifier::rlimit(50)]
proof fn lemma_nodes_120_124(i: int)
    requires
        120 <= i < 124,
    ensures
        node_ok(i),
{
    if i == 120 {
        assert(node_ok(120));
    } else if i == 121 {
        assert(node_ok(121));
    } else if i == 122 {
        assert(node_ok(122));
    } else {
        assert(node_ok(123));
    }
}

#[verifier::rlimit(50)]
proof fn lemma_nodes_124_128(i: int)
    requires
        124 <= i < 128,
    ensures
        node_ok(i),
{
    if i == 124 {
        assert(node_ok(124));
    } else if i == 125 {
        assert(node_ok(125));
    } else if i == 126 {
        assert(node_ok(126));
    } else {
        assert(node_ok(127));
    }
}

#[verifier::rlimit(50)]
proof fn lemma_nodes_128_132(i: int)
    requires
        128 <= i < 132,
    ensures
        node_ok(i),
{
    if i == 128 {
        assert(node_ok(128));
    } else if i == 129 {
        assert(node_ok(129));
    } else if i == 130 {
        assert(node_ok(130));
    } else {
        assert(node_ok(131));
    }
}

#[verifier::rlimit(50)]
proof fn lemma_nodes_132_136(i: int)
    requires
        132 <= i < 136,
    ensures
        node_ok(i),
{
    if i == 132 {
        assert(node_ok(132));
    } else if i == 133 {
        assert(node_ok(133));
    } else if i == 134 {
        assert(node_ok(134));
    } else {
        assert(node_ok(135));
    }
}

#[verifier::rlimit(50)]
proof fn lemma_nodes_136_140(i: int)
    requires
        136 <= i < 140,
    ensures
        node_ok(i),
{
    if i == 136 {
        assert(node_ok(136));
    } else if i == 137 {
        assert(node_ok(137));
    } else if i == 138 {
        assert(node_ok(138));
    } else {
        assert(node_ok(139));
    }
}

#[verifier::rlimit(50)]
proof fn lemma_nodes_140_144(i: int)
    requires
        140 <= i < 144,
    ensures
        node_ok(i),
{
    if i == 140 {
        assert(node_ok(140));
    } else if i == 141 {
        assert(node_ok(141));
    } else if i == 142 {
        assert(node_ok(142));
    } else {
        assert(node_ok(143));
    }
}

/// Every node of the layout is well formed.
pub proof fn lemma_node_ok(i: int)
    requires
        0 <= i < 144,
    ensures
        node_ok(i),
{
    if i < 4 {
        lemma_nodes_0_4(i);
    } else if i < 8 {
        lemma_nodes_4_8(i);
    } else if i < 12 {
        lemma_nodes_8_12(i);
    } else if i < 16 {
        lemma_nodes_12_16(i);
    } else if i < 20 {
        lemma_nodes_16_20(i);
    } else if i < 24 {
        lemma_nodes_20_24(i);
    } else if i < 28 {
        lemma_nodes_24_28(i);
    } else if i < 32 {
        lemma_nodes_28_32(i);
    } else if i < 36 {
        lemma_nodes_32_36(i);
    } else if i < 40 {
        lemma_nodes_36_40(i);
    } else if i < 44 {
        lemma_nodes_40_44(i);
    } else if i < 48 {
        lemma_nodes_44_48(i);
    } else if i < 52 {
        lemma_nodes_48_52(i);
    } else if i < 56 {
        lemma_nodes_52_56(i);
    } else if i < 60 {
        lemma_nodes_56_60(i);
    } else if i < 64 {
        lemma_nodes_60_64(i);
    } else if i < 68 {
        lemma_nodes_64_68(i);
    } else if i < 72 {
        lemma_nodes_68_72(i);
    } else if i < 76 {
        lemma_nodes_72_76(i);
    } else if i < 80 {
        lemma_nodes_76_80(i);
    } else if i < 84 {
        lemma_nodes_80_84(i);
    } else if i < 88 {
        lemma_nodes_84_88(i);
    } else if i < 92 {
        lemma_nodes_88_92(i);
    } else if i < 96 {
        lemma_nodes_92_96(i);
    } else if i < 100 {
        lemma_nodes_96_100(i);
    } else if i < 104 {
        lemma_nodes_100_104(i);
    } else if i < 108 {
        lemma_nodes_104_108(i);
    } else if i < 112 {
        lemma_nodes_108_112(i);
    } else if i < 116 {
        lemma_nodes_112_116(i);
    } else if i < 120 {
        lemma_nodes_116_120(i);
    } else if i < 124 {
        lemma_nodes_120_124(i);
    } else if i < 128 {
        lemma_nodes_124_128(i);
    } else if i < 132 {
        lemma_nodes_128_132(i);
    } else if i < 136 {
        lemma_nodes_132_136(i);
    } else if i < 140 {
        lemma_nodes_136_140(i);
    } else {
        lemma_nodes_140_144(i);
    }
}

/// A train on the track stays on the track: from any track location, in
/// either direction and whichever way the switches stand, the next location
/// is a track location from which a step back (the right way at a switch)
/// returns.
pub proof fn lemma_track_step(loc: Location, direction: Direction, is_switched: bool)
    requires
        loc.wf(),
        !loc.is_platform(),
    ensures
        step_ok(loc, direction, is_switched),
{
    lemma_node_ok(loc.node_index as int);
}

/// A switch or cross has a real choice in at least one direction.
pub proof fn lemma_switch_has_choice(loc: Location)
    requires
        loc.wf(),
        loc.is_switch(),
    ensures
        loc.next_spec(Direction::Anode, false).0 != loc.next_spec(Direction::Anode, true).0
            || loc.next_spec(Direction::Cathode, false).0 != loc.next_spec(Direction::Cathode, true).0,
{
    lemma_node_ok(loc.node_index as int);
}

/// There are eight switch and cross nodes on the board.
#[verifier::rlimit(100)]
pub proof fn lemma_switches_count()
    ensures
        switches_below(NUM_LOCATION_NODES as int).len() == NUM_SWITCHES,
{
    reveal_with_fuel(switches_below, 9);
    assert(switches_below(8).len() == 0);
    assert(switches_below(16).len() == 1);
    assert(switches_below(24).len() == 1);
    assert(switches_below(32).len() == 1);
    assert(switches_below(40).len() == 2);
    assert(switches_below(48).len() == 3);
    assert(switches_below(56).len() == 3);
    assert(switches_below(64).len() == 3);
    assert(switches_below(72).len() == 4);
    assert(switches_below(80).len() == 5);
    assert(switches_below(88).len() == 5);
    assert(switches_below(96).len() == 5);
    assert(switches_below(104).len() == 7);
    assert(switches_below(112).len() == 7);
    assert(switches_below(120).len() == 7);
    assert(switches_below(128).len() == 7);
    assert(switches_below(136).len() == 7);
    assert(switches_below(144).len() == 8);
}

/// There are twenty-seven platforms on the board.
#[verifier::rlimit(100)]
pub proof fn lemma_platforms_count()
    ensures
        platforms_below(NUM_LOCATION_NODES as int).len() == NUM_PLATFORMS,
{
    reveal_with_fuel(platforms_below, 9);
    assert(platforms_below(8).len() == 3);
    assert(platforms_below(16).len() == 4);
    assert(platforms_below(24).len() == 6);
    assert(platforms_below(32).len() == 8);
    assert(platforms_below(40).len() == 9);
    assert(platforms_below(48).len() == 11);
    assert(platforms_below(56).len() == 12);
    assert(platforms_below(64).len() == 14);
    assert(platforms_below(72).len() == 17);
    assert(platforms_below(80).len() == 18);
    assert(platforms_below(88).len() == 19);
    assert(platforms_below(96).len() == 20);
    assert(platforms_below(104).len() == 20);
    assert(platforms_below(112).len() == 21);
    assert(platforms_below(120).len() == 23);
    assert(platforms_below(128).len() == 26);
    assert(platforms_below(136).len() == 27);
    assert(platforms_below(144).len() == 27);
}

/// Exactly two of the eight switches are crosses (fork in both directions).
#[verifier::rlimit(100)]
pub proof fn lemma_crosses_count()
    ensures
        crosses_below(NUM_LOCATION_NODES as int).len() == 2,
{
    reveal_with_fuel(crosses_below, 9);
    assert(crosses_below(8).len() == 0);
    assert(crosses_below(16).len() == 0);
    assert(crosses_below(24).len() == 0);
    assert(crosses_below(32).len() == 0);
    assert(crosses_below(40).len() == 1);
    assert(crosses_below(48).len() == 1);
    assert(crosses_below(56).len() == 1);
    assert(crosses_below(64).len() == 1);
    assert(crosses_below(72).len() == 1);
    assert(crosses_below(80).len() == 2);
    assert(crosses_below(88).len() == 2);
    assert(crosses_below(96).len() == 2);
    assert(crosses_below(104).len() == 2);
    assert(crosses_below(112).len() == 2);
    assert(crosses_below(120).len() == 2);
    assert(crosses_below(128).len() == 2);
    assert(crosses_below(136).len() == 2);
    assert(crosses_below(144).len() == 2);
}

/// On every track node the anode and cathode neighbors differ.
pub proof fn lemma_track_neighbors_distinct(i: int)
    requires
        0 <= i < 144,
        !is_platform_node(node(i)),
    ensures
        node(i).anode_neighbor != node(i).cathode_neighbor,
{
    lemma_node_ok(i);
}

} // verus!
