# splitflap

Control logic of a split-flap display: each module turns a drum of 37 flaps (blank,
letters, digits) with a 28BYJ-48 stepper motor and finds its home with a Hall sensor.

- `src/` is the library, verified with Verus:
  - `drum` — forward-only drum arithmetic and the homing step type, with the laws on
    forward moves and on moves that visit several flaps in turn;
  - `module` — a half-step module: flap lookup, flap table, printing a character or a
    text, the homing sequence;
  - `character` — the earlier full-step single character;
  - `display` — several modules side by side, one letter each;
  - `net` — the decisions of the Wi-Fi link task and of the wait for the station address.
- `app/` is the ESP32-C3 firmware around it: pins, motors, sensor, radio, DHCP, mDNS and
  the web page.
- `tests/` runs the library on concrete values.
