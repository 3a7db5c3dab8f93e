# foxsee

The core of a UCI chess engine, written in Verus. Its behaviour is stated in contracts and
proved for positions and moves, move generation, attack tests, evaluation (material and
positional features), perft, static exchange evaluation, the transposition table and the
move-ordering tables. It also holds the search, verified but only partly specified:
iterative deepening with aspiration windows, negamax
alpha-beta with principal-variation search, quiescence search, hash-table cut-offs,
razoring, null-move, multi-cut, futility and delta pruning, check, mate-threat and
singular extensions, late-move reductions, and killer, history and counter-move ordering.
What is proved of the search: every part of it leaves the position as it found it and
keeps its scores within the mate scores; where it returns without trying a move (hash-table
cut-offs, repetitions, material draws, standing pat) and no clock query falls due, its
result is stated exactly, as are the mate and stalemate scores of a position without a legal
move; and the move it answers with is the move the hash table holds for the root after the
last finished iteration, a legal move, or none. The score of a full search, which depends on
the tables that the search rewrites as it goes, is not stated.

## Layout

- `src/` — the library, every function verified:
  - `def`, `bits`, `bitboard`, `util`, `text`: piece codes, bit-level facts, square and move
    notation, move encoding, kindergarten transforms.
  - `slide`, `bitmask`, `mov_tbl`: the attack and move masks, with the sliding lookup tables
    proved equal to the rays they stand for.
  - `fen`, `state`: reading a position, playing and taking back moves (the Zobrist key and the
    bitboards stay consistent with the squares; taking back restores the position).
  - `mov_table`, `mov_gen`, `mov_ordering`: move generation and attack tests; `tactical` and
    `playable` prove that the capture list is the tactical part of the move list and that
    every generated move of a sound position is played and taken back cleanly.
  - `eval`, `features`, `eval_params`, `search_params`, `config`: the evaluation (material,
    pawn structure, open files, king safety, pins, mobility, square values) and parameter sets.
  - `hashtable`, `zob_keys`, `search`, `clock`: the transposition table, position keys, perft,
    static exchange evaluation, principal-variation retrieval, the move-ordering tables, the
    search itself, and the clock it asks whether to stop.
  - `mov_count`: the move and capture lists of any position fit their arrays.
  - `uci`, `time_control`, `prng`, `simple_rnd`: command parsing, time budgeting, random numbers.
- `app/` — the engine program: standard input and output, threads and file reading.
- `tests/` — tests of the library on concrete positions and commands.
