# LustTermina

A terminal emulator for Windows with vertical tabs, in Rust with egui, and its
core verified with Verus.

- `src/` is the verified library. It decides what the program does and touches
  neither the screen nor the disk nor a process.
  - `text`: strings, command lines, decimal numbers, UTF-16.
  - `color`: the terminal's colours, and colours as `#RRGGBB`.
  - `screen`: the size of the grid, how a cell and the cursor are painted, how
    the pointer selects.
  - `input`: keys, pastes and copies as bytes for a shell.
  - `shells`: which shells a machine has.
  - `icons`, `image`: which icon a shell has, and its pixels.
  - `settings`: what is saved, what is loaded, and the tabs a start opens.
  - `order`: dragging an item of a list to another place.
  - `app`: the tabs.
  - `cards`: the settings page and the cards of the startup tabs.
  - `look`: colours, margins and texts of what is drawn.
- `tests/` runs the library on concrete values, against the crates it calls
  where it calls them.
- `app/` is the program round it: windows, pseudo terminals, files, and the
  geometry, which is in floating point. A build for Windows takes `icon.png`
  and `MaterialIcons-Regular.ttf` from a directory `assets` beside `app/` into
  the program.

A function with the prefix `law_` is a proof of something that holds of several
functions together. A function that is marked `external_body` hands a call to
another crate; its contract says what is taken for granted about that call.
