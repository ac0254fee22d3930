# Radish

The rules of Radish, a wave-defence game, as a library verified with Verus.

- `src/` holds the rules, each function with a contract that Verus proves:
  game messages and their filters, the controls, the player's purse and the
  town's buildings, health and damage, spells and spell slots, the wave
  director, the wave menu and its shop, achievements and high scores, the
  tutorial hints, the lifetime and targets of effects, and the music queue.
  Public `law_*` proof functions state properties that hold across calls.
- `tests/` runs the library on concrete games.
- `app/` is the program around it: the files the game keeps (TOML through
  serde), the parts of the rules that work in floating point, and the
  setup of a new game.

Rendering, sound output, input and the entity world belong to the game
engine and are not part of this crate.
