# termway

View and control a remote Wayland desktop in an SSH terminal. Frames of an output come from the
compositor, are drawn as Kitty graphics or as half blocks in true colour, and keys, clicks and
scrolling go back to the desktop.

## Layout

- `src/` is the library: everything that is decided or computed, with contracts that Verus proves.
  - `pixels`, `render`, `cells`, `placeholder`, `kitty`, `layout`: images, rasters, tiles, cells and
    the bytes that draw them;
  - `quality`, `pump`, `terminal`, `draw`, `screen`: what the terminal shows, what waits to be
    written, and how much detail is sent;
  - `keys`, `scroll`, `viewer`, `session`: keys, gestures, modes and what must be done next;
  - `config`, `selection`, `discovery`, `niri`, `json`, `input`, `screencopy`, `capture`, `report`:
    settings, detection, replies of the compositor, requests to it and shared buffers;
  - `fixture`: scenes for tests that look at a real terminal;
  - `kitty_laws`, `render_laws`, `cell_laws`, `draw_laws`, `viewer_laws`, `session_laws`: what holds
    of these parts together;
  - `arith`, `ordered`, `text`: numbers, ordered sets and text.
- `app/` is the program around it: arguments, files, sockets, threads, the terminal itself, and the
  floating-point arithmetic of the view.
- `tests/` runs the library from outside.

Times are nanoseconds since the program began. Numbers that are floating-point elsewhere, such as
the magnification of a view or the scale of an output, are held as their bits.
