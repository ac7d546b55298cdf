# xtee

Control library for a serial-attached twisting machine, verified with Verus.

- `src/` — the verified library:
  - `protocol`: the packet format spoken with the boards, with its parser and
    serialiser proved against a byte-level specification;
  - `codec`: frames (packet, CRC-8/LTE checksum, COBS encoding) built on the
    `crc` and `cobs-codec` crates, and the start-of-stream handshake;
  - `components`: the decisions of the motor, actuator, controller and master
    components, each a step from state and message to next state and actions;
  - `tuner`: the bookkeeping of the relay auto-tuning;
  - `store`, `api`: settings keys, port listing and stop modes.
- `tests/` — tests of the library on concrete values.
- `app/` — the desktop application around the library: actors, serial I/O,
  the settings store, the commands offered to the user interface, and the
  floating-point parts (PID steps, weight scaling, tuning gains, filtering).
