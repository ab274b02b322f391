# FlagForge

Feature flags with targeted rollouts, reusable audiences, experiments and an audit
trail. This crate holds the logic behind the dashboard and the storage layer,
verified with Verus.

* `src/domain.rs` is the shared vocabulary: variants, distributions, targeting rules,
  audiences, experiments.
* `src/storage/` says what the database's replies mean: the row as a value, or the
  error a caller can act on. It decides what a new environment and a new flag are
  seeded with, how a batch of counters collapses, and when to stop waiting for a
  database.
* `src/web/` is the dashboard's state: one value per page, one function per thing that
  can happen to it, and the requests that follow.
* `src/text.rs`, `src/keyset.rs`, `src/ids.rs` and `src/time.rs` are what the rest is
  built from.

The library performs no input or output. `app/` does: it draws the pages, makes the
calls, runs the SQL statements and hands the results to the library. It evaluates and
validates flags with the `flagforge_core` engine, whose types `app/engine.rs` converts.
Percentages and statistics are floating point and stay in `app/` too; the library
counts in whole shares of 100 000 and carries numbers as their bits.

What is believed rather than proved stands in functions marked
`#[verifier::external_body]`, each with a comment that names the outside function and
says what is claimed of it, and in one `assume_specification`, of `String::push`, in
`src/text.rs`. The names of results that are not written out are the functions marked
`uninterp`, beside the wrapper that speaks of each; the outside types are declared with
`#[verifier::external_type_specification]`.

The SQL statements themselves run in `app/`. Where a promise rests on what a statement
does to the stored rows (that a revoked key never resolves, that paging misses nothing),
the module beside the function describes the statement's effect on the rows as a
specification and proves the promise from that and the function's contract.
