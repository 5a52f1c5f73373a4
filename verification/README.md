# light_rail

The game logic of Light Rail, an LED circuit board on which trains of lit
cars run over a fixed track, switches redirect them at forks and crosses,
and platforms ask for cargo to be picked up or delivered. The logic is
written in Verus; Verus proves every function of it against its contract,
and the contracts state what each function returns or changes. The calls
into outside crates are the exception: the thin wrappers in `bounded`
(over the lists of `heapless`) and in `segments` (over `as1115`), and the
one `assume_specification` there, carry contracts that Verus believes
without proof; each states only what the crate's source shows.

## Layout

- `src/` — the verified library.
  - `layout`, `location`, `track`: the track graph (one packed word per
    LED), stepping along it, and the laws of a step.
  - `train`, `platform`, `switch`, `cargo`, `common`: the board's entities
    and the LED brightness each one asks for.
  - `game_state`, `game_settings`, `random`, `input`, `tone`, `segments`:
    the shared state, the stored settings, the random bytes, button
    debouncing, buzzer timer settings, seven-segment encodings.
  - `modes`: the menu (with its snake animation), the delivery games,
    juggle, snake and the settings screen; `GameMode` hands each call to the
    current mode.
  - `game`: one tick of the game loop, from button levels to the outputs the
    board must show.
  - `is31fl3731`: the LED matrix driver, as verified plans of I2C writes.
  - `bounded`: the fixed-capacity lists of the `heapless` crate (trains,
    cargo timers, the menu snake, working lists), each operation a call of
    the crate with a contract over what the list holds.
- `tests/` — tests on concrete values.
- `app/` — the firmware around the library: peripherals, the I2C bus, the
  buzzer's timer interrupt, and the loop that feeds button levels to
  `Game::tick` and performs what it returns.
