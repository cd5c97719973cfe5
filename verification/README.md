# peek

A process inspector for Linux: what a process is, what it holds open, whom it
talks to, what its environment says (secrets redacted), and a daemon,
`peekd`, that samples watched processes into bounded histories.

## Layout

- `src/` — the library, verified with Verus. Every parser of `/proc` text,
  every decision of the command line and the daemon, and every block of
  report text is a function with a contract.
  - `text` — characters, numbers, trimming, splitting, padding, UTF-8 lengths.
  - `proc_reader` — `/proc/<pid>/*` files: limits, cgroup, syscall, security
    label, environment block, file descriptors, and I/O errors.
  - `network` — `/proc/net/{tcp,udp,tcp6,udp6}` tables and IPv6 text.
  - `peek_core` — snapshot types, secret redaction, config values.
  - `kernel_explainer`, `signal_engine` — descriptions and the signal menu.
  - `cli` — flags and defaults, what a run does, target lookup, the process
    browser, port search, the kill panel and report sections.
  - `peekd` — tunables, per-PID sample rings, the watch list, request
    dispatch and history paths.
  - `tui` — tab cursor and the content of the full-screen view's panes.
- `app/` — the programs around it: argument parsing, terminal and socket
  I/O, `/proc` reads, signals and the daemon's event loop. Started as
  `peekd`, the binary runs the daemon.
- `tests/` — tests of the library on concrete values.

## Not in this build

- The full-screen live view (`--watch`): the library computes the content
  of its panes, but no terminal front end draws them; the program says so
  and exits.
- Alert rules, whether from `alerts.toml` or added over the daemon's
  socket: the daemon answers alert requests with an error (an added
  rule's PID is still watched), and its sampling loop evaluates none.
- Export as Markdown, HTML or PDF: only JSON output is written.
- Unix domain sockets, kernel context, the process tree, GPU, CPU usage,
  PSS and I/O counters are not collected.

Laws the library proves include: a sample ring keeps exactly the last
`cap` samples in arrival order; the watch list never repeats a PID nor
exceeds its limit; an environment block written from key/value pairs parses
back to the same pairs; the environment listing is sorted by key and shows
`***` for every value it flags; tab navigation steps undo each other.
