# playarr

The logic of the Playarr desktop client (a player for the series that a
Sonarr/Radarr-backed Playarr server offers), written in Verus and proved
against its contracts, and the interface around it.

- `src/` — the verified library:
  - `text.rs`: decimal text of integers, text order, text equality;
  - `sort.rs`: stable ordering of lists for display, with its laws;
  - `store.rs`: a map keyed by text;
  - `server/`: the server's data (`model.rs`), its addresses (`client.rs`),
    the network cache (`network_cache.rs`) and the image cache
    (`image_cache.rs`);
  - `pages.rs`: the pages and the state each starts with;
  - `ui.rs`: the application state and its answers to clicks, keys, the
    mouse wheel, the player's events and the onboarding form;
  - `utils.rs`: play times, season names, page trails, time since airing.
- `tests/` — tests of the library on concrete values.
- `app/` — the window, OpenGL, egui drawing, the mpv player, the network
  runtime, JSON and TOML reading, and the widgets that work in fractional
  coordinates.
