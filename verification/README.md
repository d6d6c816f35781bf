# cursor_overlay

A transparent, click-through overlay for Windows that draws a fading
rainbow trail behind the pointer, a ripple at every click, and the cursor
itself (for remote-desktop sessions that hide it).

- `src/` is the library, verified with Verus: cursor bitmap decoding
  (`pixels`, `cursor`), the trail and ripple state (`effects`), the cursor
  texture cache (`cache`), the callbacks' decisions (`input`) and wide
  strings (`text`).
- `app/main.rs` is the Windows program around it: the window, the
  low-level mouse hook, Direct3D 11 / DirectComposition rendering and the
  frame loop. It builds only for Windows targets.
