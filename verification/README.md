# thermite

The core of a chess engine, verified with Verus: board representation, move making and unmaking, FEN reading and
writing, attack and check detection, Zobrist hashing, castle rights, position evaluation values and the text the
engine sends over UCI.

Layout:

- `src/` — the verified library. Every function carries a contract; the laws that relate several functions
  (unmaking a made move restores the board, the kept hash equals the position's hash — pieces, side to move,
  en-passant square and castle rights —, reading a board's FEN string gives its fields back, pushing then popping a
  position history restores it, a piece moved onto a check square gives check, ...) are public proof functions.
- `tests/` — tests that run the library on concrete positions and texts.
- `app/` — the parts around the library: reading commands from a GUI on a thread, writing replies, the engine
  trait, and the evaluation that works with floating point numbers.
