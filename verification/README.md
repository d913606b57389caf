# rust_craft_2d

The rules of a small 2-D open-world sandbox game, verified with Verus, and the
game around them.

- `src/` — the verified library: block kinds and their save ids (`basic`), the
  block map and terrain columns (`game_map`), terrain registration, the blocks in
  view and breaking/placing blocks (`cube`), the jump rule (`player`), the hot bar
  (`gameui`), mouse capture (`window`), the save format with its round-trip laws
  (`save`) and new-game setup (`launch`).
- `app/` — the bevy game: window, rendering, input, physics, terrain noise and
  save files; the library makes the game's decisions on blocks, terrain,
  the hot bar, jumping and saves.
- `tests/` — tests of the library on concrete worlds, bars and saves.
