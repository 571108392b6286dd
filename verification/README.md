# kira

A small chess engine core, verified with Verus: board representation, move
making and unmaking, legal move generation, perft counting, FEN reading and
writing, UCI move notation, and the exchange format of a game server.

## Layout

- `src/` — the verified library.
  - `piece.rs`, `moves.rs`, `undo.rs`, `board.rs`: pieces, moves, the board and
    its mathematical model (`Position`), `make_move` / `unmake_move`.
  - `movegen.rs`: attack detection and legal move generation, each generator
    proved equal to a spec of the piece rules.
  - `perft.rs`: move-path counting (`perft`, `divided_perft`, `perft_checked`).
  - `fen.rs`, `translate_move_uci.rs`, `text.rs`: text formats.
  - `position_key.rs`: Zobrist hashing of positions for the history.
  - `requests.rs`: reading the game server's JSON replies and building move
    requests; JSON parsing itself goes through `serde_json`.
  - `engine.rs`: the engine's random move choice and GUI line parsing.
  - `laws.rs`, `move_facts.rs`, `generation_laws.rs`, `attack_laws.rs`,
    `perft_laws.rs`: properties that span functions, such as unmaking a legal
    move restoring the position, UCI notation reading back what it writes, and
    counting from any reachable position never failing.
- `tests/`: tests on concrete positions (known perft counts, FEN and UCI
  examples, server replies).
- `app/`: the command-line program (perft runs, GUI loop, HTTP calls to the
  game server).
