# x11ui

A small widget toolkit for X11: buttons and labels in nested containers that
stack their contents horizontally or vertically, in the model-view-update
style (`Elm`).

`src/` is the library, verified with Verus:

- `color`, `widgets`: the palette, buttons (hit area, builder setters) and labels.
- `layout`: containers and where each new widget goes (`create_button`,
  `create_label`, `create_container`, `padding`), with the overflow checks
  that callers outside Verus run first.
- `hit`: which button a pointer event falls on.
- `window`, `contexts`: the window's colors and the choice of graphics
  contexts for each button and label.
- `draw`: the drawing requests that paint a widget tree.
- `events`: how the event loop reacts to each input event.
- `ids`: widget identifiers from random bytes, handed out over a tree.
- `calculator`: the state of the demonstration calculator.

`app/` is the program: it talks to the X server through `x11rb`, sends the
drawing requests, feeds events to the library, reads `/dev/urandom`, and
builds the demonstration layouts.
