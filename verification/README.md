# dsh-desktop

The tray shell that runs the DeepSeek Harness `dsh web` service on Windows,
split in two:

- `src/` — the library, verified with Verus: the configuration model and the
  settings commands, picking `node` / `dsh` out of `where` output and reading
  an npm shim's entry, incremental log reading, port and process probes
  (`netstat` parsing, `dsh web` identification), the start flow of the
  service as a sequence of typed states, the authenticated address read from
  the service's output, status / details / restart, the
  leftover checks with the identity-checked cleanup, the self-check report,
  and the tray and window decisions. `text.rs` holds the character-sequence
  operations (`lines`, `split_whitespace`, `trim`, `find`, `replace`,
  decimal text and `u32` parsing) that these are stated over.
- `app/` — the Tauri program: processes, sockets, files, the registry, the
  window and the tray. It performs the I/O and hands the results to the
  library, which decides what to run next and what to report.
- `tests/` — tests of the library on concrete values.
