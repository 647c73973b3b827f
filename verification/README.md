# Appmon

Appmon is a local web console for Android emulators and iOS simulators: it
lists devices, starts and stops them, previews their screens, sends touch,
text and key input, and installs, launches and stops apps.

The crate is written in Verus. `src/` is the verified library:

- `devices` — device ids (`android:<id>`, `ios:<udid>`), the parsers of
  `adb devices -l`, `emulator -list-avds` and decoded `simctl` listings,
  shell quoting, coordinate scaling, endpoint ports and `idb describe` sizes;
- `commands` — every program and argument list that a device operation runs,
  the lines written to a persistent `adb shell`, and how tool failures are
  reported;
- `routes` — how input reaches a device (emulator gRPC or the persistent
  `adb shell`; `idb` or a Simulator-window click) and what is tried when a
  way fails;
- `validation`, `config`, `bootstrap` — input checks, settings and the
  start-up dependency plan;
- `control`, `stream`, `table`, `runner`, `android_grpc`, `error` — control
  messages and replies, preview framing, per-device state, process outcomes,
  emulator gRPC values and the error type;
- `text` — the string functions the others are specified with;
- `appmo` — the `appmo` command set, with one-off input commands.

Laws that span functions are public proof functions named `law_*`.

`app/` is the server around the library: configuration from the
environment, processes, the HTTP/WebSocket/UDP endpoints, WebRTC and the
emulator's gRPC client, and the web page. `tests/` exercises the library.
