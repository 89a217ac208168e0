# TransFEL desktop

Mirrors an Android phone's screen and moves files between the phone and the
computer, over USB or Wi-Fi, through `adb`.

## Layout

- `src/` — the library, verified with Verus: what the program decides.
  - `text.rs` — text handling with the meaning of `str`'s methods
    (trimming, splitting, searching, number parsing and printing).
  - `adb.rs` — `adb` command lines, reading a command's output, and where
    the bundled tools are looked for.
  - `device.rs`, `watcher.rs` — reading `adb devices`, device properties,
    and the `adb` server's length-framed device-list stream.
  - `stream.rs` — framing of the phone's H.264 packets and frame sizes.
  - `wifi.rs` — the Conexion screen: jobs, their reports, the log, reading
    `adb connect` / `adb pair` answers and the phone's address.
  - `files/` — the file manager: categories and sizes, listing parsers,
    listing order, the listing cache, the one-directional tray, transfers,
    searches, and the reports of background workers.
  - `app.rs` — the application state: which device is used, the stream
    state, and the actions asked of the window.
  - `laws.rs`, `files/laws.rs` — properties proved across operations.
- `app/` — the program around the library: processes, sockets, threads,
  the file dialogs and the `egui` window.
- `tests/` — tests of the library on concrete values.
