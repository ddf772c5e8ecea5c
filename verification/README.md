# butterware

The verified core of Butterware, a firmware for split wireless keyboards,
written in Verus.

`src/` is the library, verified by Verus against the contracts of its
functions:

- `hardware`: key debouncing, matrix scanning and the layer logic that turns
  key states into reports (tap layers, layer stack, key locking).
- `keys`, `keyboards`: key mappings, the Meboard's layout, and the
  Butterboard's matrix, animations, lighting and stored data.
- `split`: HID input reports, combining the key states of both halves, the
  decisions of the master and the slave, choosing the master.
- `flash`: the settings, their byte layout in the flash, the settings task's
  bookkeeping, transactions and the encoding of operations sent to the other
  half.
- `ble`: advertising payloads, bonding decisions, the GATT services to
  register (including the HID report map) and the servers' event handling.
- `led`, `power`, `battery`, `side`: LED waveform encoding and requests to the
  lighting and power tasks, routed to one or both halves.
- `procedural`: the keyboard list of the build and the selected keyboard's
  names.

`tests/` exercises the library on concrete values. `app/` holds what stays
outside the verified library: the program's entry point, file and directory
access, the host-facing loops around the library's decisions, and the
floating-point LED animations and battery conversion.
