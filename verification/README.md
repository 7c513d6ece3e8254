# beewm

The logic of a tiling Wayland compositor, verified with Verus: which window goes
where, who gets the keyboard and the pointer, what a frame is made of, how
displays are found and driven, how the session sleeps, locks and wakes.

- `src/` is the library. Windows, surfaces and outputs are numbers, times are
  nanoseconds, positions are whole pixels. Functions that act on the scene, the
  layout or clients bring their state up to date and list the steps to take.
- `src/state/` holds the desktop: workspaces, outputs, windows and their life,
  focus, placement, decorations, the session.
- `src/input/` holds keys, the pointer and interactive moves, swaps and resizes.
- `src/backend/` holds connectors, modes and the pacing of frames.
- `src/tray/` holds the settings menu and the form in which it goes over D-Bus.
- `app/` is what surrounds the library: sockets, processes, the buses, the
  Wayland scene, the driver. It also holds what is computed with fractions.
- `tests/` runs the library.

The library links no system library. What only one can compute comes in as a
function that the caller hands over: `resolve_keybinds` takes the lookup of key
names (libxkbcommon), `constrain_popup_geometry` the rules of an xdg positioner
(smithay, which links libxkbcommon). So does what takes fractions:
`capture_geometry` takes the conversions between logical and physical pixels.
Their contracts say what the function is called on and that its result is taken
over as it is.

Properties that span functions are stated as public proof functions beside the
functions they speak of. Trusted are the constructors of D-Bus values in
`src/tray/layout.rs` and one method of strings in `src/text.rs`.
