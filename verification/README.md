# dygma_sd_plugin

Battery levels of a wireless Dygma keyboard (Defy, Raise 2, Sonsei) on a
Stream Deck key, as a verified library and a thin plugin binary.

- `src/` — the library, proved with Verus:
  - `battery` — the battery snapshot, its key title and one-line description;
  - `visual` — the SVG key art (tiers, colors, bars, bolt, logo, labels) and
    its base64 data URIs;
  - `plugin` — the plugin state machine: visible actions with their settings
    (poll interval, numbers under the bars), the shared battery view, key
    images and titles, polling and single-flight battery reads, as commands
    for the caller;
  - `marketplace` — the Elgato Marketplace banner compositions;
  - `text` — decimal and fixed-point printing, rounding.
- `app/` — the Stream Deck WebSocket loop, the Focus serial reads, the
  settings JSON, and the marketplace PNG rendering.
- `tests/` — tests of the library.
