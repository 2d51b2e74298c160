# OpenLogi

The verified core of OpenLogi: what its desktop windows, its Actions Ring
overlay and its device sessions decide. Verus checks every function of `src/`
against its contract, except the wrappers around calls into other crates and the
standard library: of those the contract is trusted. The promises that span several functions stand there as
public proof functions.

- `src/` is the library.
  - Devices: `probe`, `capture`, `session`, `keyboard`, `controls`, `haptic`.
  - State: `state`, `config`, `action`, `bindings`, `settings`, `smartshift`,
    `camera`, `inventory`, `catalog`, `foreground`, `load`, `device`.
  - The agent and the pictures: `ipc`, `runtime`, `subscriptions`, `updater`,
    `diagnostics`, `glow`, `holes`, `app_icon`.
  - Windows: `home`, `mouse_view`, `picker`, `profile_scope`, `menu`,
    `carousel`, `components`, `light_visual`.
  - The overlay: `ring`, `ring_commands`, `stacking`.
  - Shared: `text`, `data`, `keyed`.
- `app/` is the ordinary Rust around it: sockets, files, windows, clocks, and
  everything in floating point.
- `tests/` runs the library, with the crates it calls.

A change of state that has to be written returns a `Save`. The caller writes
`AppState::config` and hands the outcome back with `AppState::finish_save`,
which rolls a refused change back.
