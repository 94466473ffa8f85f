# azul

A rules engine for the tile-drafting board game Azul, written in Verus: the
library in `src/` is verified, the terminal program in `app/` is ordinary Rust
around it.

- `src/` — tile colors, walls as bitboards, pattern lines, factories and the
  bag, moves and move lists, the game state with its text notation, move
  generation and round scoring, random playouts, the feature encodings of
  the search players' networks, the time controls, the turn logic of a
  match, the decisions of the background search worker, and how a human's
  answers at the terminal narrow down the legal moves. Invariants that every legal move, every round scoring and every deal
  keep are stated and proved in `src/consistency.rs`.
- `tests/` — tests of the library, run against the compiled crate.
- `app/` — the terminal game: player selection, the human player's prompts,
  the heuristic and tree-search players and the network layers (which compute
  with floating point; the search runs on a worker thread steered by the
  library's worker decisions), and JSON output of a finished match.
