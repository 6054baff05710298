# route_split

A desktop helper that keeps traffic to an internal network (by default
`10.0.0.0/255.0.0.0`) on the internal adapter's gateway while everything else
leaves through the external one, switches the system proxy off, and shows
proxy-tool snippets that keep the proxy away from the internal range.

## Layout

- `src/` — the verified library (Verus):
  - `text.rs` — character-level helpers (trimming, searching, line and word
    splitting, decimal reading and writing) with their specifications.
  - `command.rs` — commands and their outputs as plain values.
  - `network.rs` — adapter and route records, the route filter, the refusal of
    placeholder gateways.
  - `platform/linux`, `platform/windows` — the commands each operation runs and
    what their output means (`ip`, `ping`, `resolvectl`; `ipconfig`,
    `route print`, `ping`, PowerShell, the proxy registry value).
  - `ui/` — the bounded execution log, the configuration snippets, button and
    badge texts, colours.
  - `app.rs` — the application state, its transitions and the laws they keep.
  - `icon.rs` — decoding the window icon.
- `app/` — the egui window, the threads and the system calls; it hands
  command output to the library and carries out what the library decides.
- `tests/` — tests of the library on concrete command output and states.
