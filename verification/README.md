# lib — a verified core for a Wii U runtime library

The library (`src/`) holds the logic of the runtime, each function with a contract that
Verus proves:

- `path` — `/`-separated paths: parsing into components from both ends, parents, file
  names, stems and extensions, prefixes and suffixes, joining, ordering, and making a path
  absolute against a working directory. `path::laws` states what holds across these
  operations.
- `gamepad` — the buttons of all controllers as one set, their native bit masks, and how
  the input of a controller is read from and written into the native status records.
- `errno`, `dialog`, `thread` — error numbers and the codes of the system dialogs.
- `text`, `screen` — wrapping text, UTF-16 encoding and decoding, placing lines of text.
- `time` — timer ticks, points of the system clock and calendar dates.
- `fs` — the bookkeeping of a depth-first walk of a directory tree.
- `gx2` — the order of the graphics calls of a frame, and the numbering of shader attributes.

`app/` is the part that talks to the system (the working directory, the file system, the
clock, the process) and the analog sticks, which compute with floating point.
