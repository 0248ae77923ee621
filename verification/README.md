# protect_viewer

The verified core of a Windows kiosk viewer for UniFi Protect camera walls.
The library holds the viewer's saved state and the rules it follows.  Every
function in `src/` is checked by Verus against its contract, except a few
small trusted wrappers around outside code (base64 encoding and decoding,
URL parsing, UTF-8 reading, `String::push` and the system clock), whose
contracts are stated from those libraries' documentation and source.

- `json`: the JSON document model; objects are viewed as maps from keys to values.
- `store`: camera profiles, the active profile, startup settings, password
  protection of the saved profiles, the start page and the allowed origins.
- `secrets`: the `dpapi:` envelope of saved passwords: padded base64 over the
  bytes that the caller's byte protector returns (on Windows the application
  passes the user-bound data protection API; elsewhere passwords are stored as
  they are).  Every non-empty password is protected before it is written,
  whatever it looks like; the only sealed texts written back unchanged are
  those that could not be read back when the state was loaded.
- `weburl`: the parts of a parsed URL that the viewer reads, and origin matching.
- `actions`: the native commands, which page may call which, and their effect
  on the saved state.
- `connection`: the connection test's address checks and report.
- `displays`: monitor descriptions for the startup settings.
- `watchdog`: the idle restore and heartbeat watchdog decisions.
- `laws`: properties that hold across operations.
- `text`: character-level string helpers.

`app/` is the Tauri shell around the library: the window, the commands, the
state file, the log, Windows data protection and the watchdog threads.
