# grandmaster_recall

A personal chess blunder trainer: it imports a user's Chess.com games, has
Stockfish grade every move the user made, turns the real errors into
tactical puzzles, and schedules their review with SM-2 spaced repetition.

The decisions of the trainer live in a Verus-verified library (`src/`); the
web service around it (`app/`) does the I/O.

## Library (`src/`)

- `models` — the records the trainer receives, stores and answers with.
- `text`, `json` — character classes, trimming, word splitting, and the JSON
  text in which move lists and tags are stored.
- `srs` — solve grading and the integer part of the SM-2 schedule.
- `bits`, `board`, `attacks`, `chess_io` — board geometry, bitboards, and the
  positions and moves read through `shakmaty`.
- `analyzer`, `tactics`, `tags`, `explain` — score folding, move grading, the
  tactical motif detectors, the tag list of a missed move, and its
  explanation.
- `pgn`, `uci` — reading a PGN's moves and opening, and Stockfish's output.
- `analysis` — the replay of a game as a state machine: which positions to
  evaluate, and what the engine's answers make of the user's moves.
- `sync`, `stats`, `requests` — game imports and background refills,
  statistics, and request defaults.

Laws that span functions are public proof functions named `law_*`.

## Service (`app/`)

Axum routes, SQLite storage (sqlx), the Chess.com client (reqwest), the
Stockfish process, the background refill loop, and the floating-point part
of SM-2 (easiness factor, due dates).
