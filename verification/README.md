# cougr_games

Game rules for a set of on-chain games (asteroids, battleship, checkers,
chess, connect four, hidden-hand cards, memory match, minesweeper, murdoku
with and without hidden solutions, pong, reversi, rock-paper-scissors, snake,
tetris, tic-tac-toe), written as Verus-verified state transitions.

- `src/` is the verified library. Each game is a module whose operations take
  the stored game as plain values and return the next state or a typed error;
  their `ensures` clauses state the result exactly, and the public `lemma_*`
  proof functions state the laws of each game (what every move keeps, what
  ends a game, what a round trip through a byte encoding gives back).
  Calls into `soroban-sdk` (SHA-256, XDR decoding of Groth16 keys and
  proofs) and `cougr-core` (Merkle proofs, Groth16 and hidden-hand
  verification) sit behind small trusted wrappers whose doc comments say
  what is assumed; `src/bn254.rs` states which point encodings the host
  accepts and `src/zk_xdr.rs` the byte layout of a key and a proof, so that
  no wrapper is called on bytes it refuses.
- `app/` holds the Soroban contracts: storage, authorization, ledger access,
  the host's random draws, and the conversion between
  contract types and the library's types.
- `tests/` runs the library on concrete games.
