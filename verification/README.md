# vincite

The rules of a settlement-building game server, verified with Verus.

- `src/game/game_state.rs` — resources (saturating arithmetic), buildings,
  settlements and the game state.
- `src/game/rules.rs` — the static building table, production, founding
  settlements, the starting state, ticks from wall-clock time and the lazy
  advancement of a state to a tick, with the law that advancing in two steps
  equals advancing once — for states whose stocks are free of debt, or when
  at most `MAX_EXACT_TICKS` ticks pass, which covers every read at an
  accepted instant.
- `src/game/game.rs` — identifiers, statuses, players and the life of a game
  (open, start, restore from storage, read the state at an instant); a
  game's fields are private and described by its view, `GameView`.
- `src/rows.rs` — rebuilding games from stored rows.
- `src/dto.rs`, `src/error.rs` — the plain forms of requests, answers and errors.
- `app/` — the HTTP server (axum), the Postgres queries (sqlx) and the JSON
  forms (serde) around the library.

Timestamps are nanoseconds since the Unix epoch; UUIDs are their 128-bit
big-endian values.
