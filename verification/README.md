# Dario

A small 1980s-style platformer. This crate is its rule book, written in Verus
and proved: what a save holds and how saves from several tabs combine, how the
three stages are built, how the campaign moves between title, play, death,
stage clear and victory, how points are earned, the theme's score and the WAVE
framing of synthesized sound, the arcade font, and what the two HTTP front ends
of the browser build answer.

## Layout

- `src/` — the verified library.
  - `progress.rs` — records, saves, `unlocked`, `finish`, `merge`, and the laws
    of merging (nothing earned is lost; order and repetition do not matter).
  - `world.rs` — tiles, phases, sound events, pixel boxes.
  - `level.rs` — the stage tables, the tile grid each stage is built into
    (`Level::new`, stated tile by tile), tile queries and collision lists.
  - `game.rs` — the campaign state and the decisions of play.
  - `music.rs`, `wave.rs`, `font.rs` — the theme's notes, WAVE framing, glyphs.
  - `web.rs`, `saves.rs`, `text.rs` — routing of the game files and the
    decisions of the save API.
- `tests/` — tests of the library on concrete values.
- `app/` — the program around it: window, input, floating-point physics,
  drawing, audio output, files and HTTP (macroquad, serde, tempfile, tiny_http).
  `--serve` runs the browser build's file server.
