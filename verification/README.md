# tapo_rest

Schedules for smart plugs and bulbs, verified with Verus.

- `src/calendar.rs`: days of the week, dates, times of day, their order and
  their text forms (the calendar arithmetic and formatting is chrono's).
- `src/text.rs`: text comparison and the identifiers schedules are stored under.
- `src/id_map.rs`: a map from text identifiers to values in insertion order,
  with laws on reading back what was stored and removed.
- `src/scheduler.rs`: the UTC scheduler — owned one-time and recurring
  schedules, and the decisions of its periodic check.
- `src/server/`: the HTTP server's schedule store, partial updates, and the
  rule that picks the schedules due at a minute of local time.
- `app/`: files, clocks, device access, HTTP routes and the periodic loops.
- `tests/`: tests of the library on concrete values.
