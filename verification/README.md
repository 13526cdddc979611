# openlogi

The logic of an agent that configures Logitech mice, keyboards, touchpads and
lights, written and proved in Verus.

- `src/config`: the configuration: settings per device and per application,
  device identities, key triggers, upgrades of older schemas
- `src/binding`: actions, buttons, key chords, the action ring, and what an
  action does
- `src/touchpad.rs`, `src/geometry.rs`: recognizing strokes of the fingers
- `src/agent`: what the agent decides: capture plans and sessions, dispatch of
  input, haptics, lights, reapplying settings, startup and shutdown
- `src/mock`: a scripted agent to develop the user interface against
- `src/cli`: what the command line says and selects
- `src/device.rs`, `src/device_order.rs`, `src/hid.rs`: devices and their
  capabilities
- `src/ordered.rs`, `src/text.rs`, `src/diagnostics.rs`: an ordered map,
  text, and the report that goes with a request for support

`app` reads and writes the configuration file, prints the traces and runs the
scripted agent. `tests` runs the library on concrete values.

Proof functions whose names begin with `law_` state what holds of several
operations together.
