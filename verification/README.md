# waypenguin

A desktop pet for Wayland: penguins that fall onto the screen, walk, run
after the cursor, climb, float, tumble, sleep and get squashed when clicked.

The crate is split in two:

- `src/` is the verified library (Verus). It holds the integer heart of the
  pet: ARGB pixel blending and frame compositing, nearest-neighbour
  rescaling, sprite-sheet assembly and lookup with fallbacks, the cache of
  rasterised poses, the animation clocks, the millisecond timers and idle
  clock of the pet state machine, the reaction to a moved cursor and the
  timers a new behaviour starts with, click hit-testing and the
  command-line pet count (`--count`, `-n` or `--n`).
- `app/` is the daemon around it: pet motion and behaviour choices in
  floating-point screen coordinates, shadows, SVG rasterisation (usvg and
  resvg), the Wayland backend and the main loop.

Pose SVGs are read from the `tux-alpha` pet pack in
`$XDG_DATA_HOME/waypenguin/pets/` (or `~/.local/share/waypenguin/pets/`).
