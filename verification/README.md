# expiecustwm

A tiling X11 window manager. The crate's library (`src/`) holds the window
manager's logic, verified with Verus: the tiling, monocle and floating
layouts, the client list and focus rules, key bindings and modifier
handling, the configuration defaults and overrides, and the small text and
byte formats exchanged with the X server (colors, keysym names, atom lists,
property values, wallpaper pixels).

`app/` is the program around it: the X connection and event loop, the
configuration script engine, file and process handling, and the few
computations done in floating point (the master column's share of the width,
slide animation positions).

Modules of the library:

- `layout`: placements for the three layout modes.
- `wm`: the managed clients, the focus, and the state transitions of every
  event and key action.
- `client`: the client record and decisions about window properties.
- `bindings`: keyboard mapping lookup, grabs and key-press matching.
- `config`: default key bindings and settings, and settings from a script.
- `x11`: atoms, colors, keysyms, modifier masks, workspace names, property words.
- `wallpaper`: decoding the wallpaper, scaling it to fill the screen, and converting it to the server's layout.
- `animation`: slide animation frames.
- `text`: string comparison, hexadecimal parsing, whitespace splitting.
