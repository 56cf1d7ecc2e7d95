# live_ascii

A terminal renderer for Live2D Cubism models, with optional face tracking
(OpenSeeFace packets on UDP port 11573).

- `src/` is the verified library: the frame buffer, ASCII shaders, panel and
  key handling, draw order, model-setting queries, hotkeys of `live.json`,
  motion-segment decoding and flattening, the motion queue, eye-blink and pose
  bookkeeping, expression and physics settings, and the tracking packet
  format. Each function carries a contract proved by Verus; laws that span
  functions are public proof functions.
- `app/` is the program around it: file and network I/O, JSON through serde,
  the Cubism core's C API, the terminal UI, and the floating-point work
  (curve evaluation, blending, physics, rasterising).
- `tests/` exercises the library on concrete values.

Run: `live_ascii path/to/model.model3.json [--camera]`. Press `m` for the
motion list and `p` for the debug panel.
