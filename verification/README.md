# chobits

A verified library for a voice-assistant system made of two parts:

- `src/iot`: the light controller firmware core. `drivers` holds the light
  math (breathing envelope, hue walks, HSV, brightness scaling, repaint
  decisions), the input layer (button debouncing, double-click detection,
  polling cadence) and the board capabilities; `intent` turns gestures into
  target light states; `state` holds the device state; `render` decides what
  each surface shows; `app` is the render host, the light renderer and one
  pass of the input loop; `panel` is the display panel logic (RGB565 frames,
  repaint caching, bring-up command translation, SPI write batching).
- `src/server`: the assistant server's logic: configuration and its defaults,
  the round recorder (what each conversation round collects and what it
  stores when it ends), the device MCP handshake and tool routing, the chat
  loop's history bookkeeping, the speech packetization and failure handling,
  and the settling of a speech model's files from its directory listing.

The functions in `src` carry contracts that Verus proves; the reads of the
monotonic clock go through wrappers that promise nothing about the time
read. `tests` holds the executable tests; `app` is a host runner for the
light controller and the glue the server and the display boards put around
the library.
