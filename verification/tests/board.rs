use light_rail::cargo::{Cargo, LedPattern};
use light_rail::common::{Cargo as PlatformCargo, LedPattern as PlatformPattern};
use light_rail::train::{Car, Train};
use light_rail::game_settings::GameSettings;
use light_rail::input::{BoardInput, InputDirection, InputEvent};
use light_rail::location::{get_node_data, Direction, Location, LocationNode, NUM_LOCATION_NODES};
use light_rail::random::Rand;
use light_rail::tone::{toggle_step, TimerTone, ToneCommand};
use light_rail::track::{unpack_track, Track};

const DEFAULT_BYTES: [u8; 7] = [1, 5, 3, 1, 1, 1, 2];

#[test]
fn blink_patterns_switch_between_levels() {
    assert_eq!(LedPattern::Blink1.get_pwm(10, 5, 200), 5);
    assert_eq!(LedPattern::Blink1.get_pwm(30, 5, 200), 200);
    assert_eq!(LedPattern::Blink2.get_pwm(40, 5, 200), 5);
    assert_eq!(LedPattern::Blink2.get_pwm(20, 5, 200), 200);
    assert_eq!(LedPattern::Blink3.get_pwm(50, 5, 200), 5);
    assert_eq!(LedPattern::Blink3.get_pwm(60, 5, 200), 200);
    assert_eq!(LedPattern::Solid.get_pwm(3, 5, 200), 200);
}

#[test]
fn fade_stays_between_its_bounds() {
    assert_eq!(LedPattern::Fade.get_pwm(0, 50, 200), 50);
    assert_eq!(LedPattern::Fade.get_pwm(255, 50, 200), 50);
    assert_eq!(LedPattern::Fade.get_pwm(127, 50, 200), 200);
    assert_eq!(LedPattern::Fade.get_pwm(128, 50, 200), 200);
    assert_eq!(LedPattern::Fade.get_pwm(64, 50, 200), 125);
    assert_eq!(LedPattern::Fade.get_pwm(0, 0, 254), 0);
    assert_eq!(LedPattern::Fade.get_pwm(0, 10, 5), 5);
    assert_eq!(LedPattern::Fade.get_pwm(127, 10, 5), 10);
    assert_eq!(LedPattern::Fade.get_pwm(200, 100, 0), 43);
    for phase in 0..=255u8 {
        let up = LedPattern::Fade.get_pwm(phase, 10, 240);
        assert!((10..=240).contains(&up));
        assert_eq!(up, LedPattern::Fade.get_pwm(255 - phase, 10, 240));
    }
}

#[test]
fn offered_cargo_fades_within_the_red_range() {
    for phase in 0..=255u8 {
        let have = PlatformCargo::Have(PlatformPattern::Fade1).platform_brightness(phase);
        assert!((30..=90).contains(&have));
        let want = PlatformCargo::Want(PlatformPattern::Fade1).platform_brightness(phase);
        assert!((15..=45).contains(&want));
    }
    assert_eq!(PlatformCargo::Have(PlatformPattern::Fade1).platform_brightness(0), 90);
    assert_eq!(PlatformCargo::Have(PlatformPattern::Fade1).platform_brightness(127), 30);
}

#[test]
fn cargo_brightness() {
    assert_eq!(Cargo::Empty.platform_brightness(0, 10, 100), 0);
    assert_eq!(Cargo::Full(LedPattern::Solid).platform_brightness(0, 10, 100), 100);
    assert_eq!(Cargo::Empty.car_brightness(0, 200), 100);
    assert_eq!(Cargo::Full(LedPattern::Solid).car_brightness(0, 200), 200);
    assert_eq!(Cargo::Full(LedPattern::Blink1).car_brightness(0, 200), 100);
}

#[test]
fn rand_hands_out_bytes_little_endian_then_steps() {
    let seed: u32 = 0x0403_0201;
    let mut rand = Rand::seed(seed);
    assert_eq!(rand.get_u8(), 1);
    assert_eq!(rand.get_u8(), 2);
    assert_eq!(rand.get_u8(), 3);
    assert_eq!(rand.get_u8(), 4);
    let next = seed.wrapping_mul(1664525).wrapping_add(1013904223);
    assert_eq!(rand.get_u8(), (next & 0xFF) as u8);
}

#[test]
fn new_train_from_unplaced_cars() {
    let mut rand = Rand::seed(7);
    let mut t = Train::new(vec![Car::default(); 16], 5, Location::new(32), Cargo::Empty, None, &mut rand);
    assert_eq!(t.len(), 1);
    assert_eq!(t.front(), Location::new(32));
    assert_eq!(t.engine().cargo, Cargo::Empty);
    assert_eq!(t.last_loc(), Location::new(32));
    assert_eq!(t.speed(), 10);
    assert!(t.add_car(Cargo::Empty).is_some());
    assert_eq!(t.len(), 2);
}

#[test]
fn rand_full_range_takes_the_next_byte() {
    let mut rand = Rand::seed(0x0403_0201);
    assert_eq!(rand.from_range(0, 255), 1);
    assert_eq!(rand.get_u8(), 2);
}

#[test]
fn rand_u16_and_fill() {
    let mut rand = Rand::seed(0x0403_0201);
    assert_eq!(rand.get_u16(), 0x0201);
    let mut buf = vec![0u8; 3];
    assert!(rand.try_fill_bytes(&mut buf).is_ok());
    let next = 0x0403_0201u32.wrapping_mul(1664525).wrapping_add(1013904223);
    assert_eq!(buf, vec![3, 4, (next & 0xFF) as u8]);
}

#[test]
fn rand_bool_is_always_false() {
    let mut rand = Rand::seed(0xDEAD_BEEF);
    for _ in 0..64 {
        assert!(!rand.get_bool());
    }
}

#[test]
fn rand_range_stays_in_range() {
    let mut rand = Rand::seed(7);
    for _ in 0..200 {
        let v = rand.from_range(3, 7);
        assert!((3..=7).contains(&v));
    }
    for _ in 0..50 {
        assert_eq!(rand.from_range(9, 9), 9);
    }
}

#[test]
fn tone_timer_settings() {
    let mut buzzer = TimerTone::new();
    assert_eq!(
        buzzer.tone(3000, 15),
        ToneCommand::Play { ocr: 1332, prescale_64: false, toggle_count: Some(90) }
    );
    assert_eq!(
        buzzer.tone(30, 0),
        ToneCommand::Play { ocr: 2082, prescale_64: true, toggle_count: None }
    );
    assert_eq!(buzzer.tone(0, 10), ToneCommand::Silence);
    assert_eq!(buzzer.no_tone(), ToneCommand::Silence);
}

#[test]
fn tone_toggles_count_down() {
    assert_eq!(toggle_step(None), (None, false));
    assert_eq!(toggle_step(Some(1)), (None, true));
    assert_eq!(toggle_step(Some(5)), (Some(4), false));
}

#[test]
fn settings_load_defaults_out_of_range() {
    let settings = GameSettings::new([99, 9, 9, 9, 0, 9, 9]);
    assert_eq!(settings.digit_brightness_level(), 1);
    assert_eq!(settings.car_brightness_level(), 5);
    assert_eq!(settings.platform_brightness_level(), 3);
    assert_eq!(settings.switch_brightness_level(), 1);
    assert!(!settings.is_buzzer_enabled());
    assert_eq!(settings.game_speed_level(), 1);
    assert_eq!(settings.autostop_level(), 2);
    assert_eq!(settings.game_speed(), 10);
}

#[test]
fn settings_save_then_load_round_trip() {
    let bytes = [4, 2, 0, 5, 1, 2, 0];
    let settings = GameSettings::new(bytes);
    assert_eq!(settings.save(), bytes);
    let again = GameSettings::new(settings.save());
    assert_eq!(again.save(), bytes);
}

#[test]
fn settings_levels_saturate() {
    let mut settings = GameSettings::new([9, 5, 0, 1, 1, 1, 2]);
    settings.inc_digit_brightness_level();
    assert_eq!(settings.digit_brightness_level(), 9);
    settings.inc_car_brightness_level();
    assert_eq!(settings.car_brightness_level(), 5);
    settings.dec_platform_brightness_level();
    assert_eq!(settings.platform_brightness_level(), 0);
    settings.dec_digit_brightness_level();
    assert_eq!(settings.digit_brightness_level(), 8);
    settings.toggle_buzzer();
    assert!(!settings.is_buzzer_enabled());
}

#[test]
fn buttons_press_then_hold() {
    let mut input = BoardInput::new();
    assert_eq!(input.update([false; 12]), None);
    let mut low = [false; 12];
    low[8] = true;
    assert_eq!(input.update(low), Some(InputEvent::DirectionButtonPressed(InputDirection::Up)));
    for _ in 2..20 {
        assert_eq!(input.update(low), None);
    }
    assert_eq!(input.update(low), Some(InputEvent::DirectionButtonHeld(InputDirection::Up)));
    let mut switch_low = [false; 12];
    switch_low[3] = true;
    let mut other = BoardInput::new();
    assert_eq!(other.update(switch_low), Some(InputEvent::SwitchButtonPressed(3)));
}

#[test]
fn button_events_by_index() {
    assert_eq!(BoardInput::index_to_press_event(0), InputEvent::SwitchButtonPressed(0));
    assert_eq!(BoardInput::index_to_hold_event(11), InputEvent::DirectionButtonHeld(InputDirection::Right));
    assert_eq!(BoardInput::index_to_release_event(9), InputEvent::DirectionButtonReleased(InputDirection::Down));
    assert_eq!(BoardInput::index_to_press_event(10), InputEvent::DirectionButtonPressed(InputDirection::Left));
}

#[test]
fn buttons_never_report_a_release() {
    let mut input = BoardInput::new();
    let mut rand = Rand::seed(99);
    for _ in 0..2000 {
        let mut low = [false; 12];
        for b in low.iter_mut() {
            *b = rand.get_u8() < 100;
        }
        match input.update(low) {
            Some(InputEvent::SwitchButtonReleased(_)) | Some(InputEvent::DirectionButtonReleased(_)) => {
                panic!("release reported")
            }
            _ => {}
        }
    }
}

#[test]
fn track_word_unpacks_most_significant_first() {
    assert_eq!(
        unpack_track(0x6111_FFFF),
        Track { anode_next_loc: 0x61, cathode_next_loc: 0x11, anode_next_loc2: 0xFF, cathode_next_loc2: 0xFF }
    );
}

#[test]
fn layout_has_distinct_track_neighbors_and_two_crosses() {
    let mut crosses = 0;
    for i in 0..144usize {
        let n = get_node_data(i);
        let platform = n.anode_neighbor == n.cathode_neighbor;
        if !platform {
            assert_ne!(n.anode_neighbor, n.cathode_neighbor);
            if n.anode_neighbor_2 != 0xFF && n.cathode_neighbor_2 != 0xFF {
                crosses += 1;
            }
        }
    }
    assert_eq!(crosses, 2);
}

#[test]
fn node_word_unpacks_most_significant_first() {
    let node = LocationNode::from(0x0102_03FFu32);
    assert_eq!(
        node,
        LocationNode { anode_neighbor: 0x01, cathode_neighbor: 0x02, anode_neighbor_2: 0x03, cathode_neighbor_2: 0xFF }
    );
}

#[test]
fn platform_locations() {
    let expected: [u8; 27] = [
        0x01, 0x05, 0x06, 0x0F, 0x13, 0x15, 0x1A, 0x1C, 0x23, 0x28, 0x2C, 0x31, 0x3A, 0x3C, 0x40, 0x41, 0x43,
        0x4B, 0x56, 0x58, 0x6C, 0x71, 0x75, 0x79, 0x7C, 0x7E, 0x86,
    ];
    let locs = Location::platform_locs();
    let indices: Vec<u8> = locs.iter().map(|l| l.index()).collect();
    assert_eq!(indices, expected.to_vec());
    assert_eq!(Location::switch_locs().len(), 8);
}

#[test]
fn platform_leads_to_its_track() {
    let platform = Location::new(0x01);
    assert_eq!(platform.next_loc(Direction::Cathode, true).index(), 0x20);
    let track = Location::new(0);
    assert_eq!(track.next_loc(Direction::Anode, false).index(), 0x61);
    assert_eq!(track.next_loc(Direction::Cathode, false).index(), 0x11);
}

#[test]
fn every_track_step_can_be_undone() {
    for i in 0..NUM_LOCATION_NODES as u8 {
        let loc = Location::new(i);
        if loc.location_data().is_platform() {
            continue;
        }
        for dir in [Direction::Anode, Direction::Cathode] {
            for switched in [false, true] {
                let (next, next_dir) = loc.next(dir, switched);
                assert!(!next.location_data().is_platform());
                let back = match next_dir {
                    Direction::Anode => Direction::Cathode,
                    Direction::Cathode => Direction::Anode,
                };
                let straight = next.next_loc(back, false);
                let forked = next.next_loc(back, true);
                assert!(straight == loc || forked == loc, "step from {} not reversible", i);
            }
        }
    }
}

#[test]
fn default_settings_bytes_load_as_is() {
    let settings = GameSettings::new(DEFAULT_BYTES);
    assert_eq!(settings.save(), DEFAULT_BYTES);
}
