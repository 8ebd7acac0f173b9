# embed_ui

A small retained-mode widget toolkit for strip-buffered embedded displays,
verified with Verus.

- `src/` is the verified library: geometry, the row layout, the widget
  state machines (button, checkbox, label, radio button, separator,
  textbox), pages with focus handling and event routing, the user
  interface with its page switching and event queue, the strip painter's
  planning of what to repaint, the packed RGB666 colour, the bump arena,
  and the joint-jog screen of the simulator with its decisions.
- `tests/` runs the library on concrete values.
- `app/` is the simulator program: it draws the plans of the library with
  `embedded-graphics` into a strip framebuffer and shows them in the
  `embedded-graphics-simulator` window.
