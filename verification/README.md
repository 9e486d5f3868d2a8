# edex_de

The logic of the eDEX-DE desktop environment as a library verified with
Verus: the notification store, the file browser panel, the launcher and its
application index, the settings panel, panel and window tiling geometry, the
key handling, and the readers of what system tools print (`nmcli`, `pactl`,
`wpctl`, `bluetoothctl`, `systemctl`, `tailscale`, `fprintd`, `upower`,
Hyprland's socket, `/proc` and `/sys`).

- `src/` is the library, verified by Verus. The contracts state what each
  function returns or changes; the one result left unstated is whether a
  notification has expired on the wall clock (`Notification::is_expired`),
  whose rule is stated by `is_expired_after`. The public proof functions
  state the laws that tie several operations together (for example, that dismissing a notification removes
  it, or that a configuration written and read back is unchanged).
- `tests/` runs the library on concrete inputs.
- `app/` is a small command-line front end: it runs the system tools, reads
  files, and prints what the library makes of them. Geometry and sizes that
  are computed in floating point live there too.

Calls into other crates (`fuzzy-matcher`, `mime_guess`) and into a few parts
of the standard library stand behind trusted items whose doc comments say
what is assumed of them.
