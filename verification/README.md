# flowrly

Time tracking and invoicing for a freelancer: time entries, the activity tracker's
samples turned into per-day overviews, invoice planning for Fakturoid, CSV export and
local backups.

Layout:

- `src/` is the library, written in Verus. Each public function states in its contract
  what it returns, over spec functions on plain values; the proof functions named
  `law_*` state properties that hold across calls (time accounting partitions, the
  entry invariant, rounding of invoiced hours, idempotent settings cleaning).
  Calls into chrono, csv and `str::to_lowercase` go through small trusted wrappers
  whose contracts name what those calls return.
- `app/` is the surrounding application code: SQLite storage, the HTTP client for
  Fakturoid, the keyring, the window tracker loop and the command layer. It hands the
  library plain values and acts on what comes back.
- `tests/` exercises the library on concrete values.
