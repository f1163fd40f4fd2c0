# alynxis

The verified core of Alynxis, a brain-inspired system built around a
concept graph, tiered episodic and procedural memory, and five seeded
values, with an admin credential and session that guard consequential
changes.

## Layout

- `src/` — the library, verified with Verus.
  - `worldmodel/` — the concept graph: nodes with normalized label sets,
    edges whose relation is itself a node, the coarse category index, and
    the ingestion rule (a label never seen before always gets a new node; a
    known label reuses the first node carrying it; a triple seen again
    reinforces its edge, and ingesting an already-known statement never
    fails over tables in normal form, which every run of ASCII ingestions
    keeps; labels share a node exactly when their normal forms agree). Stored rows are read back through verified column parsers.
    `laws.rs` proves the rules that span operations.
  - `memory/` — episodes kept in time order, procedural patterns, the
    episodic and cold tiers and the facade over them; `laws.rs` proves the
    round trips and the ordering of the recent-episodes query.
  - `admin.rs` — Argon2id credential hashing and checking, and the
    time-bounded admin session, whose validity is decided from the elapsed
    time handed to it.
  - `values.rs` — the value kinds, their command-line names, and the check
    in front of lifting the self-capability ceiling.
  - `config.rs`, `ids.rs`, `text.rs`, `clock.rs` — configuration defaults,
    identifiers, text helpers and clock readings.
- `tests/` — tests of the library.
- `app/` — the `alynxis` command: configuration and state files, SQLite
  persistence of the graph and the memory tables, logging, and the
  floating-point parts (value weights, confidence, spatial positions).

Calls into `uuid`, `argon2` and the clock go through small trusted
wrappers whose contracts state what those functions document.
