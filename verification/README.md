# obayebar

The logic of a small Hyprland desktop (a bar with a media panel and an
application launcher, a wallpaper daemon, a lock-screen wrapper), written in
Verus: every function in `src/` carries a contract that Verus proves.

- `src/` — the verified library. Parsers (command lines, control lines,
  Hyprland events, desktop-entry `Exec` lines), path rules, the program
  spawner's decisions, the lock command's run and the lock screen's state
  machine with the choice of each monitor's lock background, the wallpaper
  passes (which monitors keep their picture and which are dealt one, and
  which order and cursor are kept), buffer
  sizing and redraws, the wallpaper follow-up scheduler, the Hyprland event
  stream, the audio sink list and default sink, player selection and media
  controls, the launcher's scan, ranking and selection, the watch that
  keeps its list current, image packing and rotation. The shuffle and the dealing of
  pictures from the order, and the rendering of the hyprlock config, are not
  part of this tree: a pass takes what they give as arguments. Calls into outside
  crates (`image`, `fast_image_resize`, `url`, `lru`, `fuzzy-matcher`,
  `serde_json`) sit
  behind small trusted wrappers whose contracts say what the crate's source
  shows.
- `tests/` — tests of the library, run against the real outside crates.
- `app/` — the process side: environment variables, the config file, inotify, control
  sockets, child processes, the wallpaper state file, desktop-entry discovery,
  and the `obayebar-launcher` entry point.
