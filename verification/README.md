# mahjong

Verified rules engines for two mahjong families, written in Verus.

- `src/riichi`: Japanese riichi mahjong for four players (yonma) and three players (sanma):
  tiles and tile sets, the shuffled wall with its dead wall, table progress, rule
  configuration, its overrides and its validation, hand flow (deal, discard, riichi, tsumo,
  ron, chi, pon and open kan on a discard, passing, the answers open to each seat and the automatic passing of
  seats that have none, furiten, exhaustive and abortive draws), hand checkpoints (a run-time
  check of the hand's structural invariant, and a checkpoint that is restored only when the
  state passes it), hand scoring (shapes, waits, yaku, fu, points), settlement of a hand and
  the result of a match. Concealed and added kans and north extraction are not part of this
  library.
- `src/sichuan`: Sichuan bloody-battle mahjong: tiles, the wall with its dice, the tile
  exchange, missing-suit choice, the hand state machine, scoring and match settlement.
- `src/random.rs`: the seeded shuffle behind every wall, on top of `rand_chacha` (the stream
  of a seed is named, so each wall is stated as the shuffle its seed gives), and the
  operating system's randomness through `getrandom` for fresh seeds.
- `app/`: serde forms of rule values, overrides and complete rule configurations (riichi and
  Sichuan) for reading and writing rule files.

Public operations state their results in `requires`/`ensures` contracts over
mathematical models (where a result comes from chance, a judge the caller supplies or the
operating system, the contract states what holds of every outcome), and laws that span operations (points that always balance, a
derangement of exchange seats, waits that are exactly the completing kinds, and more)
are stated as proof functions.
