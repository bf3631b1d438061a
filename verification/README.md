# sherlock

Launcher entries, aliases, launch counters and key bindings of the Sherlock
application launcher, verified with Verus.

- `src/loader/util.rs`: application actions, application entries built from
  raw launcher configuration, aliases, entries named by their keys, cache file
  paths and the launch-count table.
- `src/ui/util.rs`: key bindings and modifier symbols, the launch counter
  stored as four little-endian bytes, and the search modes of aliases.
- `src/table.rs`: a string-keyed table whose view is a map.
- `src/text.rs`: character-level string helpers.
- `src/errors.rs`: the error type.
- `app/`: serde forms of the types, file and environment access, and the GTK
  glue (result list, asynchronous row updates).
