# dn_timer

The verified core of a desktop timer for Dragon Nest raids and of its
weekly clear tracker.

- `src/` is the library, checked by Verus: the slot timers and the tick
  engine, hotkey text handling, window docking geometry, the preset,
  dungeon and character rules, the weekly reset schedule, and the small
  parsers and formatters they rely on.
- `tests/` runs the library on concrete values.
- `app/` is the Tauri desktop shell around it: the SQLite store, the
  engine and scheduler threads, the Windows hooks, the window and the OCR
  sidecar process.
