use light_rail::game::Game;
use light_rail::game_settings::GameSettings;
use light_rail::game_state::DisplayState;
use light_rail::input::BoardInput;
use light_rail::is31fl3731::{DelayMs, Error, I2cBus, IS31FL3731};
use light_rail::modes::GameMode;
use light_rail::random::Rand;
use light_rail::tone::{TimerTone, ToneCommand};

#[test]
fn bus_error_converts_into_driver_error() {
    let e: Error<u8> = Error::from(7u8);
    assert!(matches!(e, Error::I2cError(7)));
}

fn new_game(seed: u32) -> Game {
    let mut game = Game::new(
        TimerTone::new(),
        BoardInput::new(),
        GameSettings::new([1, 5, 3, 1, 1, 1, 2]),
        Rand::seed(seed),
    );
    game.restart();
    game
}

#[test]
fn first_tick_shows_the_menu_and_draws_everything() {
    let mut game = new_game(1);
    assert!(matches!(game.mode, GameMode::Menu(_)));
    let out = game.tick([false; 12]);
    assert_eq!(out.tone, None);
    assert!(out.clear_leds);
    let digits = out.digits.expect("digits update");
    assert_eq!(digits.intensity, 1);
    assert_eq!(digits.display, game.last_display);
    assert!(!out.led_updates.is_empty());
    assert!(!game.state.redraw);
    let out = game.tick([false; 12]);
    assert!(!out.clear_leds);
}

#[test]
fn buttons_beep_unless_silenced() {
    let mut game = new_game(2);
    let mut low = [false; 12];
    low[10] = true;
    let out = game.tick(low);
    assert_eq!(out.tone, Some(TimerTone::new().tone(3000, 10)));
    let mut up = [false; 12];
    up[11] = true;
    let mut game2 = new_game(3);
    let out = game2.tick(up);
    assert_eq!(out.tone, Some(ToneCommand::Play { ocr: 1141, prescale_64: false, toggle_count: Some(70) }));
    game2.buzzer_enabled = false;
    let mut game3 = game2;
    let mut sw = [false; 12];
    sw[0] = true;
    let out = game3.tick(sw);
    assert_eq!(out.tone, None);
}

#[test]
fn menu_selection_starts_a_game() {
    let mut game = new_game(4);
    let mut down = [false; 12];
    down[9] = true;
    game.tick(down);
    game.tick([false; 12]);
    assert_eq!(game.state.display, DisplayState::Text(*b"1dl"));
    let mut right = [false; 12];
    right[11] = true;
    game.tick(right);
    assert_eq!(game.mode_index, 1);
    assert!(matches!(game.mode, GameMode::DeliveryFreeplay(_)));
}

#[test]
fn holding_left_goes_back_to_the_menu() {
    let mut game = new_game(5);
    game.state.target_mode_index = 3;
    game.tick([false; 12]);
    assert!(matches!(game.mode, GameMode::Juggle(_)));
    let mut left = [false; 12];
    left[10] = true;
    for _ in 0..20 {
        game.tick(left);
    }
    assert!(matches!(game.mode, GameMode::Menu(_)));
    assert_eq!(game.mode_index, 0);
}

#[test]
fn long_run_keeps_the_game_consistent() {
    let mut game = new_game(6);
    for t in 0..3000u32 {
        let mut low = [false; 12];
        if t % 97 == 0 {
            low[(t as usize / 97) % 12] = true;
        }
        let out = game.tick(low);
        for update in out.led_updates.iter() {
            assert!(update.location.index() < 144);
        }
        assert!(game.state.trains.len() >= 1 && game.state.trains.len() <= 8);
    }
}

struct RecordingBus {
    writes: Vec<(u8, Vec<u8>)>,
    fail_after: Option<usize>,
}

impl I2cBus for RecordingBus {
    type Error = u8;

    fn write(&mut self, address: u8, bytes: &[u8]) -> Result<(), u8> {
        if let Some(limit) = self.fail_after {
            if self.writes.len() >= limit {
                return Err(7);
            }
        }
        self.writes.push((address, bytes.to_vec()));
        Ok(())
    }
}

struct NoDelay;

impl DelayMs for NoDelay {
    fn delay_ms(&mut self, _ms: u32) {}
}

fn bus() -> RecordingBus {
    RecordingBus { writes: Vec::new(), fail_after: None }
}

#[test]
fn led_pwm_selects_bank_then_writes_register() {
    let mut driver = IS31FL3731::new(bus());
    assert!(driver.set_led_pwm(0, 7).is_ok());
    assert!(matches!(driver.set_led_pwm(150, 1), Err(Error::InvalidLocation(150))));
    let bus = driver.destroy();
    assert_eq!(bus.writes, vec![(0x74, vec![0xFD, 0]), (0x74, vec![0x24, 7])]);
}

#[test]
fn frames_up_to_eight() {
    let mut driver = IS31FL3731::new(bus());
    assert!(driver.set_frame(8).is_ok());
    assert!(matches!(driver.set_frame(9), Err(Error::InvalidFrame(9))));
    assert!(driver.show_frame(2).is_ok());
    assert!(driver.set_led_pwm(1, 9).is_ok());
    let bus = driver.destroy();
    assert_eq!(
        bus.writes,
        vec![(0x74, vec![0xFD, 0x0B]), (0x74, vec![0x01, 2]), (0x74, vec![0xFD, 2]), (0x74, vec![0x25, 9])]
    );
}

#[test]
fn clear_zeroes_six_rows() {
    let mut driver = IS31FL3731::new(bus());
    assert!(driver.clear(Some(3)).is_ok());
    let bus = driver.destroy();
    assert_eq!(bus.writes.len(), 7);
    assert_eq!(bus.writes[0], (0x74, vec![0xFD, 3]));
    for row in 0..6u8 {
        let mut expected = vec![0x24 + row * 24];
        expected.extend(std::iter::repeat(0u8).take(24));
        assert_eq!(bus.writes[row as usize + 1], (0x74, expected));
    }
}

#[test]
fn begin_sets_up_every_frame() {
    let mut driver = IS31FL3731::new(bus());
    assert!(driver.begin(&mut NoDelay).is_ok());
    let bus = driver.destroy();
    assert_eq!(bus.writes.len(), 2 + 2 + 2 + 8 * (7 + 18 * 2) + 2 + 2);
    assert_eq!(bus.writes[1], (0x74, vec![0x0A, 0]));
    assert_eq!(bus.writes[bus.writes.len() - 1], (0x74, vec![0x0A, 1]));
}

#[test]
fn bus_errors_stop_an_operation() {
    let mut driver = IS31FL3731::new(RecordingBus { writes: Vec::new(), fail_after: Some(1) });
    assert!(matches!(driver.set_led_pwm(3, 3), Err(Error::I2cError(7))));
    assert_eq!(driver.mode(0), Err(7));
    let bus = driver.destroy();
    assert_eq!(bus.writes.len(), 1);
}
