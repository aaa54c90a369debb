# xmahjong

The rules of the xMahjong solitaire game as a library verified with Verus.

- `src/levels.rs`: tiles per level and the face pool of each level phase.
- `src/game_state.rs`: score tracking, the player selection / name entry flow,
  game phases, hints and animations.
- `src/storage.rs`: user folder names, leaderboard entries and achievements,
  trophies, the daily bonus, saved-game checks, level progress (marking,
  unlocking, synchronizing, reconciling stored records) and player profiles
  (which folders are profiles, building, merging by name ignoring case,
  ordering).
- `src/renderer.rs`: the 5x7 bitmap font, number grouping, and fixed HUD and
  dialog rectangles.
- `src/text.rs`, `src/order.rs`: character classes, trimming, decimal output,
  lexicographic order; sorting of level lists.

`app/` holds what stays outside the verifier: the JSON files on disk (serde),
the storage folders found through the environment and the file system, the
floating-point window layout and the SDL2 conversions.
