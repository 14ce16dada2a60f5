# er_overlay

A read-only overlay for Elden Ring: a customizable HUD (in-game time, bosses, deaths, NG+,
key items, group progress, challenge PB / tries), a boss checklist panel and a
randomizer-aware checks panel, plus the injector that loads it and updates it.

The decisions of the overlay are a library verified with Verus (`src/`):

- `hotkey`, `config`, `config_keys`: hotkey parsing, configuration rules, settings a release adds.
- `layout`, `layout_rules`: grid layouts, sections, validation and the rules it enforces.
- `boss_table`, `checks_table`, `lot_flags`, `tables`, `keyed`: game-data tables, per-seed
  flag mappings, ownership of goods.
- `reader`, `field_area`, `view_model`, `metrics`, `checks_panel`, `panel_text`, `poll`: what
  is read from the game and what is drawn from it.
- `challenge`: the challenge-mode tracker (personal best, failed runs).
- `overlay_state`, `frame_timing`, `reload`, `extractor`: panel and section state, hotkeys,
  frame statistics, hot reloading and the regulation extractor.
- `process`, `game_version`, `update`, `version`: injector-side rules (target process, game
  builds, self-update, release versions and which releases are newer).

`app/` holds the host: file and network I/O, serde forms of the files, logging, the Windows
game-memory reader, the DX12/ImGui renderer and the injector's Win32 calls.
