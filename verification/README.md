# m3u8_queue

The logic of a desktop queue manager for an m3u8 download tool, verified with
Verus: the download queue and its retry policy, the saved queue and its
restoration after a restart, the history of finished downloads kept in
numbered chunk files and read back newest first, the saved output of each
download and its paging, the terminal view of the tool's output, the
automatic shutdown after a run, the settings, and the decisions taken when a
download starts, completes or fails.

Layout:

- `src/` — the library. Each module states its contracts over spec functions;
  `queue_laws.rs` and `queue_manager_laws.rs` hold the properties that span
  several operations, and the other laws stand beside the functions they
  concern.
- `tests/` — tests of the library on concrete values.
- `app/` — a command-line program around the library: files, processes,
  system commands and the serialized forms of the records.
