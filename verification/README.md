# fool_engine

The core of a scripted 2D game engine, with its behaviour stated in
contracts and proved with Verus.

- `src/` is the verified library: frame pacing (`frame`), the engine loop's
  decisions (`engine_loop`), engine status (`status`), save-file framing
  (`save`), window-input tracking (`input`), log roll-over and module
  filtering (`logging`), physics pair filters (`hooks`), Lua module tables
  built from resources and zip archives (`modules`, `table`), `os.time`
  date arithmetic (`ostime`), configuration and window settings (`config`,
  `window`, `graphics`, `events`, `capture`), and the audio registry
  (`audio`).
- `tests/` exercises the library on concrete values.
- `app/` is the program around it: command line, logging through log4rs,
  save files on disk, the configuration file, and the Lua host.

## Scope

The window, GPU drawing, GUI, physics simulation and sound output of the
engine rest on nannou, winit, egui, rapier2d and kira, and on the engine's
own window, graphics and script crates; none of these is part of this
build. Their floating-point glue is not carried over. What those layers
decide (frame pacing, which script runs, screenshot order, pair filters,
audio lookups, window settings) is in `src/`; the program in `app/` starts
the script side only: the Lua state with its restricted standard library,
the module searchers, `main.lua` and the script's `init`. The resources are
read from a `resources` folder beside the executable.

Paths are joined as `PathBuf::join` does on Unix.

Keyed tables (module tables, physics groups, audio groups and playing
music) are vectors with unique keys: their contracts speak of the map or set
they hold.
