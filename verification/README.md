# mx_daemon

The Modulix system daemon's logic as a verified library, and the daemon
binary around it.

- `src/` — the library, verified with Verus:
  - `command/` — the commands of `org.modulix.Daemon`: method names, the
    dispatch table, how arguments are read and the status line each reports;
    option and list changes; the `UpdateSystem` plan.
  - `daemon.rs` — dispatch by method name and when a successful write
    invalidates the store's installed listing.
  - `polkit.rs`, `dry_run.rs`, `config_dir.rs`, `error.rs` — authorization
    verdicts, the dry-run switch, the configuration directory, errors.
  - `cache.rs` — the bounded, TTL'd cache behind every store read.
  - `store/` — `org.modulix.Store1`: rows and their dicts, variant ranks and
    labels, icon base names, grouping of variants, ordering of alternate
    sources, install stamping, and every reply assembled from the caches.
  - `listener/` — which hostname1 calls are hostname changes; UDisks2
    `fstab` entries, mount information and the per-device watcher that
    decides what each configuration change means.
  - `text.rs` — character-level string helpers with their specifications.
- `tests/` — tests of the library.
- `app/` — the binary: the bus connection, the two interfaces, polkit,
  `modulix-core-utils` calls, single-flight fetching and the listeners'
  bus I/O.

Time in the caches is a caller-supplied clock in milliseconds.
