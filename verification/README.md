# electrolux_ir

Electrolux portable-AC IR remote for the M5StickC Plus2, with its protocol and
transmitter decisions verified in Verus.

- `src/frame.rs` — the 13-byte OFF frame, `reverse_bits`, the bit-reversed checksum.
- `src/pulse.rs` — `Pulse`, the timings, and `encode_frame` (header, bytes MSB-first, footer)
  into a bounded `heapless::Vec`.
- `src/rmt.rs` — RMT channel settings and packing of pulses two per symbol plus end marker.
- `src/session.rs` — the repeated-transmission state machine (transmit, pause, finish).
- `src/remote.rs` — first-poll focus and press-edge detection for the two buttons.
- `app/` — the firmware: display, buttons, RMT driver and delays on `esp-hal`.
