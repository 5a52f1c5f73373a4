use light_rail::cargo::{Cargo, LedPattern};
use light_rail::game_settings::GameSettings;
use light_rail::game_state::{DisplayState, GameState, MAX_TRAINS};
use light_rail::input::{InputDirection, InputEvent};
use light_rail::modes::delivery::{CargoTimer, DeliveryMode, TimedDeliveryMode};
use light_rail::modes::freeplay::{FreeplayMode, Setting as FreeplaySetting};
use light_rail::modes::juggle::JuggleMode;
use light_rail::modes::menu::{MenuMode, SnakeLocation};
use light_rail::modes::settings::{Setting, SettingsMode};
use light_rail::modes::snake::SnakeMode;
use light_rail::modes::time::TimeMode;
use light_rail::modes::{GameMode, GameModeHandler};
use light_rail::location::Location;
use light_rail::random::Rand;

fn snake(segments: &[SnakeLocation]) -> heapless::Deque<SnakeLocation, 6> {
    let mut d = heapless::Deque::new();
    for s in segments {
        d.push_back(*s).unwrap();
    }
    d
}

fn fresh_state(seed: u32) -> GameState {
    GameState::new(GameSettings::new([1, 5, 3, 1, 1, 1, 2]), Rand::seed(seed))
}

#[test]
fn fresh_state_has_empty_platforms() {
    let state = fresh_state(1);
    assert_eq!(state.trains.len(), 0);
    assert_eq!(state.platforms.len(), 27);
    assert_eq!(state.switches.len(), 8);
    assert!(state.platforms.iter().all(|p| p.is_empty()));
    assert_eq!(state.display, DisplayState::Blank);
}

#[test]
fn settings_display_shows_setting_and_level() {
    let mode = SettingsMode::default();
    let settings = GameSettings::new([1, 5, 3, 1, 1, 1, 2]);
    assert_eq!(mode.setting_display(&settings), DisplayState::Segments([0x3D, 0x9F, 0x30]));
}

#[test]
fn settings_browse_comes_back() {
    let mut mode = SettingsMode::default();
    mode.next_setting();
    assert_eq!(mode.cur_setting, Setting::TrainBrightness);
    mode.prev_setting();
    assert_eq!(mode.cur_setting, Setting::DigitBrightness);
    for _ in 0..5 {
        mode.next_setting();
    }
    assert_eq!(mode.cur_setting, Setting::DigitBrightness);
    mode.prev_setting();
    assert_eq!(mode.cur_setting, Setting::BuzzerEnabled);
}

#[test]
fn settings_mode_changes_levels() {
    let mut mode = SettingsMode::default();
    let mut state = fresh_state(3);
    mode.on_restart(&mut state);
    mode.on_input_event(InputEvent::DirectionButtonPressed(InputDirection::Right), &mut state);
    assert_eq!(state.settings.digit_brightness_level(), 2);
    assert_eq!(state.display, DisplayState::Segments([0x3D, 0x9F, 0x6D]));
    mode.on_input_event(InputEvent::DirectionButtonPressed(InputDirection::Left), &mut state);
    mode.on_input_event(InputEvent::DirectionButtonPressed(InputDirection::Left), &mut state);
    assert_eq!(state.settings.digit_brightness_level(), 0);
}

#[test]
fn settings_raise_then_lower_is_undone() {
    let mut mode = SettingsMode::default();
    let mut state = fresh_state(4);
    state.settings = GameSettings::new([1, 3, 3, 1, 1, 1, 2]);
    mode.on_restart(&mut state);
    for _ in 0..5 {
        let before = state.settings.save();
        mode.on_input_event(InputEvent::DirectionButtonPressed(InputDirection::Right), &mut state);
        mode.on_input_event(InputEvent::DirectionButtonPressed(InputDirection::Left), &mut state);
        assert_eq!(state.settings.save(), before);
        mode.on_input_event(InputEvent::DirectionButtonPressed(InputDirection::Down), &mut state);
    }
    // at the top, raising does nothing and lowering then takes a level off
    let mut top = GameSettings::new([9, 5, 5, 5, 1, 1, 2]);
    top.inc_car_brightness_level();
    top.dec_car_brightness_level();
    assert_eq!(top.save(), [9, 4, 5, 5, 1, 1, 2]);
}

#[test]
fn menu_browses_games_skipping_the_snake() {
    let mut menu = MenuMode::default();
    assert_eq!(menu.next_game_mode(true), *b"1dl");
    assert_eq!(menu.index, 1);
    assert_eq!(menu.next_game_mode(false), *b"set");
    assert_eq!(menu.index, 5);
    assert_eq!(menu.next_game_mode(true), *b"1dl");
    for start in 1..6 {
        let mut m = MenuMode::default();
        m.index = start;
        m.next_game_mode(true);
        m.next_game_mode(false);
        assert_eq!(m.index, start);
    }
}

#[test]
fn mode_names_and_modes() {
    assert_eq!(GameMode::mode_name(2), *b"2ti");
    assert_eq!(GameMode::mode_name(3), *b"3jg");
    assert_eq!(GameMode::mode_name(4), *b"4sn");
    assert_eq!(GameMode::mode_name(0), *b"err");
    assert_eq!(GameMode::mode_name(7), *b"err");
    assert!(matches!(GameMode::from_index(4), GameMode::Snake(_)));
    assert!(matches!(GameMode::from_index(0), GameMode::Menu(_)));
    assert!(matches!(GameMode::from_index(9), GameMode::Menu(_)));
    assert!(matches!(GameMode::default(), GameMode::Menu(_)));
}

#[test]
fn snake_moves_along_the_strokes() {
    let moves = MenuMode::next_segment_locations(&SnakeLocation::new(0, 0x40), true);
    assert_eq!(moves.as_slice(), &[(SnakeLocation::new(1, 0x40), true), (SnakeLocation::new(0, 0x20), false)]);
    let moves = MenuMode::next_segment_locations(&SnakeLocation::new(2, 0x40), true);
    assert_eq!(moves.as_slice(), &[(SnakeLocation::new(2, 0x20), false)]);
    let moves = MenuMode::next_segment_locations(&SnakeLocation::new(1, 0x02), false);
    assert_eq!(
        moves.as_slice(),
        &[(SnakeLocation::new(0, 0x01), false), (SnakeLocation::new(1, 0x01), true), (SnakeLocation::new(1, 0x04), false)]
    );
}

#[test]
fn snake_cannot_move_onto_itself() {
    let mut menu = MenuMode::default();
    menu.snake_segments = snake(&[SnakeLocation::new(0, 0x20)]);
    assert!(!menu.is_valid_movement(&SnakeLocation::new(0, 0x40), true, &SnakeLocation::new(0, 0x20)));
    assert!(menu.is_valid_movement(&SnakeLocation::new(0, 0x40), true, &SnakeLocation::new(1, 0x40)));
}

#[test]
fn snake_digits_show_strokes_and_food() {
    let mut menu = MenuMode::default();
    menu.snake_segments = snake(&[SnakeLocation::new(1, 0x10), SnakeLocation::new(1, 0x08)]);
    menu.snake_food = 0b100;
    assert_eq!(menu.snake_segment_data(), [0, 0x18, 0x80]);
}

#[test]
fn snake_eats_food_moving_right_along_d() {
    let mut menu = MenuMode::default();
    menu.snake_segments = snake(&[SnakeLocation::new(1, 0x08)]);
    menu.snake_direction = true;
    menu.snake_food = 0b010;
    menu.snake_eat();
    assert_eq!(menu.snake_food, 0);
    assert!(menu.snake_grow);
}

#[test]
fn find_path_finds_a_path_whenever_one_exists() {
    let mut menu = MenuMode::default();
    let corner = SnakeLocation::new(2, 0x40);
    menu.snake_segments = snake(&[]);
    for seed in 0..20u32 {
        let mut rand = Rand::seed(seed);
        assert_eq!(menu.find_path(&corner, true, 4, &mut rand), Some((SnakeLocation::new(2, 0x20), false)));
    }
    menu.snake_segments = snake(&[SnakeLocation::new(2, 0x20)]);
    for seed in 0..20u32 {
        let mut rand = Rand::seed(seed);
        assert_eq!(menu.find_path(&corner, true, 1, &mut rand), None);
        assert_eq!(menu.find_path(&corner, true, 0, &mut rand), Some((corner, false)));
    }
}

#[test]
fn a_found_path_starts_with_a_valid_move() {
    let mut menu = MenuMode::default();
    menu.snake_segments = snake(&[SnakeLocation::new(1, 0x40), SnakeLocation::new(0, 0x40)]);
    for seed in 0..20u32 {
        let mut rand = Rand::seed(seed);
        let head = SnakeLocation::new(1, 0x40);
        if let Some((next, _)) = menu.find_path(&head, true, 3, &mut rand) {
            assert!(menu.is_valid_movement(&head, true, &next));
        }
    }
}

#[test]
fn menu_restart_starts_two_trains_and_a_snake() {
    let mut menu = MenuMode::default();
    let mut state = fresh_state(11);
    menu.on_restart(&mut state);
    assert_eq!(state.trains.len(), 2);
    assert_eq!(state.trains[0].len(), 5);
    assert_eq!(state.trains[1].len(), 3);
    assert!(!menu.snake_segments.is_empty());
    assert!(menu.snake_segments.len() <= 2);
    for _ in 0..200 {
        menu.on_game_tick(&mut state);
        assert!(menu.snake_segments.len() <= 6);
        assert!(!menu.snake_segments.is_empty());
    }
    menu.on_input_event(InputEvent::DirectionButtonPressed(InputDirection::Down), &mut state);
    assert_eq!(state.display, DisplayState::Text(*b"1dl"));
    menu.on_input_event(InputEvent::DirectionButtonPressed(InputDirection::Right), &mut state);
    assert_eq!(state.target_mode_index, 1);
}

#[test]
fn delivery_timer_rules() {
    let timed = DeliveryMode::new(true);
    assert_eq!(timed.get_timer_ticks(Cargo::Full(LedPattern::Blink1)), 8000);
    assert_eq!(timed.get_timer_ticks(Cargo::Full(LedPattern::Blink2)), 4000);
    assert_eq!(timed.get_timer_ticks(Cargo::Full(LedPattern::Blink3)), 2000);
    assert_eq!(timed.get_timer_score(Cargo::Full(LedPattern::Blink3)), 3);
    assert_eq!(timed.get_timer_score(Cargo::Full(LedPattern::Solid)), 0);
    let untimed = DeliveryMode::new(false);
    assert_eq!(untimed.get_timer_ticks(Cargo::Full(LedPattern::Blink3)), 8000);
    assert_eq!(untimed.get_timer_score(Cargo::Full(LedPattern::Blink3)), 1);
    assert_eq!(untimed.get_timer_score(Cargo::Empty), 0);
    let mut scored = DeliveryMode::new(true);
    scored.score = 14;
    assert_eq!(scored.get_timer_count(), 5);
    scored.score = 25;
    assert_eq!(scored.spawn_chance(), 22);
}

#[test]
fn delivery_timers_one_per_platform_at_most_eight() {
    let mut mode = DeliveryMode::new(true);
    mode.add_platform_timer(5, Cargo::Full(LedPattern::Blink2));
    assert_eq!(mode.timers.as_slice(), &[CargoTimer { platform_index: 5, ticks_left: 4000 }]);
    mode.add_platform_timer(5, Cargo::Full(LedPattern::Blink1));
    assert_eq!(mode.timers.len(), 1);
    for pi in 10..20 {
        mode.add_platform_timer(pi, Cargo::Full(LedPattern::Blink1));
    }
    assert_eq!(mode.timers.len(), 8);
    assert!(mode.has_platform_timer(5));
    assert_eq!(mode.remove_platform_timer(5), 4000);
    assert!(!mode.has_platform_timer(5));
    assert_eq!(mode.timers.len(), 7);
}

#[test]
fn delivery_dots_follow_time_left() {
    let mut mode = DeliveryMode::new(true);
    assert!(mode.update_timer_dots(1000));
    assert_eq!(mode.timer_dots, 0);
    assert!(mode.update_timer_dots(1001));
    assert_eq!(mode.timer_dots, 1);
    assert!(mode.update_timer_dots(4000));
    assert_eq!(mode.timer_dots, 2);
    assert!(mode.update_timer_dots(4001));
    assert_eq!(mode.timer_dots, 3);
    assert!(!mode.update_timer_dots(8000));
}

#[test]
fn delivery_score_display() {
    let mut mode = DeliveryMode::new(true);
    mode.score = 123;
    assert_eq!(mode.score_display(), DisplayState::Segments([0xB0, 0xED, 0xF9]));
    mode.timer_dots = 1;
    assert_eq!(mode.score_display(), DisplayState::Segments([0x30, 0x6D, 0xF9]));
}

#[test]
fn delivery_restart_and_play() {
    let mut mode = TimedDeliveryMode::default();
    let mut state = fresh_state(5);
    mode.on_restart(&mut state);
    assert_eq!(state.trains.len(), 1);
    assert_eq!(state.trains[0].len(), 3);
    assert!(state.trains[0].cars().iter().all(|c| c.cargo == Cargo::Empty));
    assert_eq!(state.display, DisplayState::Segments([0xFE, 0xFE, 0xFE]));
    for _ in 0..500 {
        mode.on_game_tick(&mut state);
        assert!(mode.0.timers.len() <= 8);
    }
    mode.on_input_event(InputEvent::DirectionButtonPressed(InputDirection::Right), &mut state);
    assert_eq!(mode.0.cooldown_ticks_left, 75);
    assert_eq!(mode.0.autostop_active, 0);
}

#[test]
fn juggle_restart_and_pause() {
    let mut mode = JuggleMode::default();
    let mut state = fresh_state(21);
    mode.on_restart(&mut state);
    assert_eq!(state.trains.len(), 2);
    assert_eq!(state.trains[0].speed(), 5);
    assert_eq!(state.trains[1].speed(), 5);
    assert_eq!(state.trains[1].len(), 4);
    assert_eq!(state.display, DisplayState::Score(0));
    mode.on_input_event(InputEvent::DirectionButtonPressed(InputDirection::Up), &mut state);
    assert!(state.is_paused);
    for _ in 0..256 {
        mode.on_game_tick(&mut state);
    }
    assert_eq!(state.display, DisplayState::Segments([0, 0x36, 0]));
}

#[test]
fn juggle_milestones_speed_up_trains() {
    let mut mode = JuggleMode::default();
    let mut state = fresh_state(22);
    mode.on_restart(&mut state);
    JuggleMode::apply_milestone(5, &mut state);
    assert_eq!(state.trains[0].speed(), 8);
    JuggleMode::apply_milestone(10, &mut state);
    assert_eq!(state.trains[1].speed(), 8);
    JuggleMode::apply_milestone(35, &mut state);
    assert_eq!(state.trains.len(), 3);
    assert_eq!(state.trains[0].speed(), 5);
    assert_eq!(state.trains[2].len(), 5);
    JuggleMode::apply_milestone(7, &mut state);
    assert_eq!(state.trains.len(), 3);
}

#[test]
fn snake_restart() {
    let mut mode = SnakeMode::default();
    let mut state = fresh_state(31);
    mode.on_restart(&mut state);
    assert_eq!(state.trains.len(), 1);
    assert_eq!(state.trains[0].len(), 1);
    assert_eq!(mode.score, 1);
    assert_eq!(state.display, DisplayState::Score(1));
}

#[test]
fn trains_keep_their_length_while_moving() {
    let mut mode = SnakeMode::default();
    let mut state = fresh_state(32);
    mode.on_restart(&mut state);
    state.add_train(Cargo::Full(LedPattern::Solid), 4, 6, Some(50));
    assert_eq!(state.trains.len(), 2);
    let len = state.trains[1].len();
    for _ in 0..300 {
        let (_, updates) = state.advance_train(1);
        assert!(updates.len() <= len + 2);
        assert_eq!(state.trains[1].len(), len);
    }
    assert!(state.trains.len() <= MAX_TRAINS);
}

#[test]
fn adding_then_removing_a_car_gives_the_train_back() {
    let mut mode = SnakeMode::default();
    let mut state = fresh_state(77);
    mode.on_restart(&mut state);
    state.add_train(Cargo::Full(LedPattern::Solid), 3, 6, Some(20));
    let cars = |state: &GameState| -> Vec<(Location, Cargo)> { state.trains[1].cars().iter().map(|c| (c.loc, c.cargo)).collect() };
    let before = cars(&state);
    state.add_train_car(1, Cargo::Empty);
    assert_eq!(state.trains[1].len(), 4);
    assert_eq!(state.trains[1].caboose().cargo, Cargo::Empty);
    assert_ne!(state.trains[1].cars()[3].loc, state.trains[1].cars()[1].loc);
    state.remove_train_car(1);
    assert_eq!(cars(&state), before);
}

#[test]
fn speed_sets_the_share_of_ticks_that_move() {
    for (speed, ticks, moves) in [(30u8, 10usize, 3usize), (100, 7, 7), (0, 50, 0), (45, 20, 9)] {
        let mut state = fresh_state(93);
        state.add_train(Cargo::Empty, 2, 5, Some(10));
        state.set_train_speed(0, speed);
        let mut count = 0;
        for _ in 0..ticks {
            let (moved, _) = state.advance_train(0);
            if moved {
                count += 1;
            }
        }
        assert_eq!(count, moves);
    }
}

#[test]
fn a_redraw_redraws_parked_trains() {
    let mut state = fresh_state(91);
    state.add_train(Cargo::Empty, 3, 5, Some(0));
    let (_, first) = state.advance_train(0);
    assert_eq!(first.len(), 3);
    state.redraw = false;
    let (moved, again) = state.advance_train(0);
    assert!(!moved);
    assert!(again.is_empty());
    state.redraw = true;
    let (_, forced) = state.advance_train(0);
    assert_eq!(forced.len(), 3);
}

#[test]
fn switches_follow_the_layout_after_presses_and_ticks() {
    use_switch_law(fresh_state(55));
}

fn use_switch_law(mut state: GameState) {
    for round in 0..6 {
        for k in 0..8 {
            if (k + round) % 3 != 0 {
                state.toggle_switch(k);
            }
            let _ = state.update_switch(k, round % 2 == 0);
            let s = &state.switches[k];
            let l = s.location();
            for d in [light_rail::location::Direction::Anode, light_rail::location::Direction::Cathode] {
                let straight = l.next_loc(d, false);
                let fork = l.next_loc(d, true);
                let expected = if straight != fork { Some(l.next_loc(d, s.is_switched(d))) } else { None };
                assert_eq!(s.active_location(d), expected);
                if expected.is_none() {
                    assert!(!s.is_switched(d));
                }
            }
        }
    }
}

#[test]
fn switches_cycle_back() {
    let mut state = fresh_state(41);
    for k in 0..8 {
        let before = (
            state.switches[k].is_switched(light_rail::location::Direction::Anode),
            state.switches[k].is_switched(light_rail::location::Direction::Cathode),
        );
        for _ in 0..4 {
            state.toggle_switch(k);
        }
        let after = (
            state.switches[k].is_switched(light_rail::location::Direction::Anode),
            state.switches[k].is_switched(light_rail::location::Direction::Cathode),
        );
        assert_eq!(before, after);
        state.toggle_switch(k);
        let toggled = (
            state.switches[k].is_switched(light_rail::location::Direction::Anode),
            state.switches[k].is_switched(light_rail::location::Direction::Cathode),
        );
        assert_ne!(before, toggled);
    }
}

#[test]
fn freeplay_browses_trains() {
    let mut mode = FreeplayMode::default();
    let mut state = fresh_state(51);
    mode.on_restart(&mut state);
    mode.next_setting(&mut state, true);
    assert_eq!(mode.cur_setting, FreeplaySetting::RandomSwitching);
    mode.next_setting(&mut state, true);
    assert_eq!(mode.cur_setting, FreeplaySetting::Trains);
    assert_eq!(state.display, DisplayState::Segments([0x0F | 0x80, 0, 0x30]));
    mode.update_setting(&mut state, true);
    assert_eq!(state.trains.len(), 2);
    mode.next_setting(&mut state, true);
    assert_eq!((mode.cur_setting, mode.cur_train_index), (FreeplaySetting::TrainCars, 0));
    mode.next_setting(&mut state, true);
    assert_eq!((mode.cur_setting, mode.cur_train_index), (FreeplaySetting::TrainCars, 1));
    mode.next_setting(&mut state, false);
    assert_eq!((mode.cur_setting, mode.cur_train_index), (FreeplaySetting::TrainCars, 0));
    mode.next_setting(&mut state, false);
    assert_eq!(mode.cur_setting, FreeplaySetting::Trains);
    mode.update_setting(&mut state, false);
    assert_eq!(state.trains.len(), 1);
}

#[test]
fn time_mode_timers() {
    let mut mode = TimeMode::default();
    let mut state = fresh_state(61);
    mode.on_restart(&mut state);
    assert_eq!(state.display, DisplayState::Segments([0xFE, 0xFE, 0xFE]));
    mode.add_platform_timer(1);
    mode.add_platform_timer(2);
    mode.add_platform_timer(3);
    mode.add_platform_timer(4);
    assert_eq!(mode.timers.len(), 3);
    assert_eq!(mode.timers[0], CargoTimer { platform_index: 1, ticks_left: 8000 });
    mode.remove_platform_timer(2);
    assert_eq!(mode.timers.len(), 2);
    for _ in 0..300 {
        mode.on_game_tick(&mut state);
        assert!(mode.timers.len() <= 3);
    }
}
