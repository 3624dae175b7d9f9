# yian-launcher

A launcher for programs, files, folders and web sites. Entries are kept in groups, ordered by hand
and by pinning, found by what is typed, and launched. The launcher lives in the tray and is called
up by a hotkey.

- `src/` is the library, verified with Verus: what is stored, the rules by which entries are shown,
  found, ordered, added and edited, the locks of groups, the hotkey, where windows stand and when
  they hide at a screen edge, what is dropped and dragged, and what is handed to the system to
  launch an entry. It takes what the system tells as plain values and gives back what is to be done
  as plain values. Calls into other crates (addresses, pictures, key combinations, the clock) stand
  behind small functions whose contracts are trusted; each says in its documentation what it claims.
- `tests/` holds tests on concrete values, run with the real crates.
- `app/` is the program around the library: settings files, the network, drawing in floating point,
  and the desktop. `controller.rs` carries out what the library decides; `screen.rs` says what it
  needs of a window and of the system. `desktop.rs`, `desktop_settings.rs`, `ole_drop.rs` and
  `win.rs` are these on Windows. The windows themselves are described for `slint` and are built
  together with it.
