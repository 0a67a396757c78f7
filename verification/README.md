# Mod Workbench

The logic of a desktop workbench for editing game data, verified with Verus: what each
panel shows, decides and changes. Every function states in its contract what it returns
and how it changes the state of the workbench. The value of the flag that calls a scan off
is left out: the scanning thread shares it, so no contract speaks of what it reads.

- `src/` is the library. `state` holds what the panels share, `ui/` one module for each
  panel. `json`, `json_text` and `edit_path` model documents, print them and follow paths
  in them; `byte_patch`, `hexdump` and `paz_file` serve the byte-level and archive editors;
  `text`, `digits`, `sizes`, `sorting` and `rows` are the ground they stand on.
- `tests/` runs the library.
- `app/` draws the panels with egui. What it needs from the rest of the program (archives,
  parsers, the worker, files) stands behind one trait.

JSON text is printed by `serde_json`; colours and sliders are floating point and stay in
`app/`.
