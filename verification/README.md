# openchamber_tauri

The OpenChamber desktop shell (Tauri 2): a native window, a tray, dialogs,
notifications and two supervised child processes (`opencode serve` and the
OpenChamber web server), with a command surface that the shared UI calls as
`window.__OPENCHAMBER_DESKTOP__`.

What the shell decides and computes is done by a library verified with Verus,
as functions on plain values with `requires`/`ensures` contracts. The
application around it performs I/O and drives Tauri: it reads the settings
file and HTTP response bodies as text, which the library parses, and writes
the settings text the library produces:

| module | what it decides |
|--------|-----------------|
| `bootstrap` | ports from `OPENCHAMBER_PORT` / `OPENCODE_PORT`, the local URLs, the startup plan |
| `runtime_config` | the renderer's runtime configuration, platform name, macOS version, home directory |
| `process` | server URLs and ports, skip flags, launchers and arguments, locating `opencode`, health polling and back-off, shutdown order |
| `commands::desktop` | the desktop hosts stored in settings, host probing (plan, identity gate, version classification), LAN address, extra windows, update info |
| `commands::settings` | the settings path, reading the settings text (parsed through `serde_json`) and a damaged file, replacing the settings or the desktop hosts |
| `commands::notifications` | which notifications are shown, with what title and body, de-duplication within five seconds |
| `commands::runtime` | the initialization script, the boot outcome, which URLs may be opened |
| `commands::process`, `files`, `window`, `updates` | session requests and replies, dialog plans, the mini chat window, update status |
| `json`, `text` | a JSON document model and the string operations the rest is specified with |
| `json_text` | the JSON string literal `serde_json` writes, the compact text of a JSON value, reading JSON text (through `serde_json`) and reading written text back |
| `deps` | the trusted calls into `serde_json`, `url` and `reqwest` |

Properties that relate several calls are public proof functions named
`law_*` (reading settings and hosts back after writing them, notification
de-duplication, back-off bounds, port round trips, the boot outcome slot, a
string literal, a JSON value's text and the boot outcome's JSON reading back as
what was written).

`app/` is the Tauri application around the library: it reads the environment,
files and the network, drives Tauri and its plugins, and hands plain values to
the library. `tests/` runs the library on concrete values.
