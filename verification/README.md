# rp_scale

The logic of an RP scale station: it reads weights from a serial scale,
prepares label print jobs for Zebra and GoDEX printers, and serves the
mobile app (listen address, candidate ports, UDP discovery, handshake).

The library in `src/` is written in Verus and proved against its contracts:

- `scale/` – serial framing, weight parsing (`parser`, `candidates`,
  `weight_text`), readings, the scale core state and the port probe as a
  state machine.
- `print/` – printer kinds, print modes, driver capabilities and their
  manifest, the operator's selection, the Zebra weight block and the scan
  link of a label.
- `print_core/` – preparing a job from a reading and a selection, and
  checking it against the active printer's capabilities.
- `service/` – mobile service configuration, candidate ports, listen
  addresses, discovery and the mobile API shapes.
- `text/`, `utf8len.rs` – character and UTF-8 helpers with their models.

Weights are held as the bit patterns of `f64` values (`Kilograms`); the
library compares them but does no floating-point arithmetic. The caller
subtracts the tare and writes weights as text.

`app/` holds what runs around the library: the serial probe program, the
sockets of the mobile service, JSON bodies, and the floating-point steps.
