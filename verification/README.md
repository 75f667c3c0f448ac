# Omarchy Chess, verified core

The rules, notation and persistence of the Omarchy Chess desktop game as a
Verus library, with the program's file, process and sound handling around it.

- `src/chess.rs` — positions (FEN) and moves (UCI); shakmaty does the chess,
  each call behind one trusted wrapper whose result is named.
- `src/game.rs` — a game: results imposed by the rules, draw claims, resignation,
  moves, takebacks, the UCI position command and PGN export.
- `src/headers.rs` — PGN tags kept sorted, as a map.
- `src/pgn.rs` — importing one PGN game event by event.
- `src/storage.rs` — the saved session and rebuilding a game from it.
- `src/engine.rs` — the decisions of the UCI exchange with an engine.
- `src/theme.rs`, `src/pieces.rs`, `src/preferences.rs`, `src/sound.rs` —
  colours, piece artwork recolouring, settings and the WAV cues.
- `src/text.rs` — string helpers and their specifications.
- `app/` — the program: files, JSON, the engine process and its threads,
  sound playback, reading PGN with pgn-reader.
