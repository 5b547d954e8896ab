# lumen

The rules of *Lumen*, a calm first-person open world that reawakens as you
rekindle its shrines, as a verified Rust library, plus the Bevy game around it.

- `src/` — the library, proved with Verus: the game-state machine and cursor
  rules, shrine progress (spawning, rekindling, the save's lit ids and
  relighting them on load), the rekindle target, menu and photo-mode
  decisions, the quality presets, the terrain's lattice hash and index buffer,
  landmark kinds, and on-screen text.
- `tests/` — tests of the library on concrete values.
- `app/` — the Bevy plugins: rendering, input, audio, the floating-point
  terrain/lighting/movement/flocking maths, the save file and browser
  storage. They call the library for every decision above.
