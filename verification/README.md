# core_storage

A storage layer that formats whole block devices as stores and receives
uploaded objects over TCP, written in Verus.

- `src/` is the verified library: the on-disk header and its layout, the
  checks before a device is formatted, the byte readers and writers, the
  command-line parsing and rendering, the upload protocol's framing and
  transfer bookkeeping, and the disk catalogue. Calls into `crc32c`, `uuid`,
  `getrandom`, `chrono`, `mime_guess` and the system clock go through small
  trusted wrappers whose contracts are stated beside them.
- `app/` is the program around it: device and file I/O, mounting, the TCP
  server, SQLite, and `main`.
- `tests/` exercises the library with the outside crates linked.
