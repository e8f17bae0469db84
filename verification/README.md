# myde_wrap

A small Wayland compositor that shows a single application and lets a control
client, over a Unix socket, choose which regions of the application's canvas
appear on which screen (rotated around their anchor and stretched to fill the
screen).

- `src/` is the verified library (Verus): the protocol's value types, the
  length-prefixed framing of the control socket, the renderer state that the
  requests drive and the answers to them, the canvas geometry, the choice and
  layering of regions per screen, output discovery over probed connectors,
  vertical-blank frame scheduling, and the software frame painter.
- `app/` is the program around it: the command line, the control socket and
  its JSON forms of the messages, the Wayland server state and protocol
  handlers, and the DRM and nested (winit) display backends, which do the
  GPU work.
- `tests/` runs the library on concrete values.
