# orion_sdr_view

The verified core of a keyboard-driven SDR spectrum viewer, written in Verus.

`src/` is the library, every function proved against its contract:

- `text` — decimal and hexadecimal digits, white-space trimming, ASCII case
  folding, and dictionary order of fixed-width numerals.
- `utils::calendar`, `utils::format` — civil dates from day counts, and the
  clock reading and ISO 8601 stamps; stamps of one offset sort into time
  order and never collide.
- `utils::script`, `utils::script_parse` — the grammar of timed key
  scripts: white-space words, key specs, timed steps and `set` lines with
  every diagnostic, run settings given at most once, and the stable
  ordering of steps by time.
- `settings` — the settings popover's keyboard navigation as a state
  machine, with the invariant that the focus stays on a visible row.
- `decode` — provenance-tagged instrument readings and their formatting,
  the instrument panel's grid (column widths, origins and text rendering,
  with the law that every column starts at its origin in every row), and
  chunk-sequence accounting.
- `source` — COFDM and DVB-T numerology, shaping parameters, labels, frame
  accounting, the DVB-T payload search over the coding chain's block
  plan, and the noise generator's xorshift step.
- `replay` — SHA-256, the dump's record count, run errors, and the
  driver's frame-by-frame delivery of script steps.

`app/` holds what cannot be verified: the command line, the YAML
configuration, the terminal and time-zone reads, the numbers in a script
(times, durations, sizes and scales, which the library carries only as bit
patterns), and the floating-point instrument panel.
