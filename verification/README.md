# hexagon

Firmware logic for a wall of hexagonal LED units driven by a Teensy 4.0:
colour animations and effects, LED strip drivers, serial ports, a Wi-Fi
module speaking AT commands, a thermometer that seeds the random numbers,
and the cooperative tasks that tie them together.

- `src/` is the library, verified with Verus. Each function states what it
  computes; hardware access is described as plain values (register writes,
  pin set-up steps, bits to send, bytes to write) rather than performed.
- `tests/` exercises the library on concrete values.
- `app/` is the board program: it performs the register writes and pin
  timings, draws random numbers, does the floating-point colour arithmetic,
  and runs the tasks' loop, using `teensycore` for the board.
