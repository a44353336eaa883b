# brenn-component-demo, verified

The decision logic of the two demo components, proved with Verus.

- `src/body.rs`: the bodies put on the bus (`{"total":N}`, `{"display":N}`)
  and the decimal text of a number.
- `src/envelope.rs`: an envelope of a `total` window as the logic reads it, and
  the latest total of a window.
- `src/counter.rs`: the counter's reading of one activation's windows — the
  retained total plus the new clicks.
- `src/panel.rs`: the panel's view plan and its activation machine, from what
  the host reports to what it is asked to do next.
- `src/activation.rs`: whole panel activations, and what holds of every one.
- `app/`: the guests themselves — host calls, the port surface and the serde
  bodies — around the library.
- `tests/`: the host-side suites, driven against the library, and the library's
  own tests.
