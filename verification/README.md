# pg_wal_budget

Budgets for the write-ahead log of PostgreSQL, by policy scope: the extension predicts how much WAL a
statement will write, lets it through, makes it wait or refuses it, and sets its books right by what
the statement wrote. The decisions are a library in Verus, proved against their contracts; the
extension around it is ordinary Rust on pgrx.

## The library, `src/`

| Module | What it holds |
| --- | --- |
| `types`, `errors`, `text`, `seqs` | The vocabulary, the errors and their texts, and what the contracts are written in. |
| `policy`, `policy_cache`, `catalog` | Which policies are valid, how they are stored and cached, and which one a scope falls under. |
| `scope`, `privileges`, `utility` | The scope of a session, who may do what, and what kind of statement there is. |
| `predict`, `profile`, `profile_store` | Predictions, the learned profiles behind them, and their durable copies. |
| `budget` | Token buckets: refills, charges, refunds, waits, and what each mode makes of a statement. |
| `admission`, `lifecycle`, `reconcile` | A statement from its start to its end or the end of its transaction. |
| `shmem` | The tables that all backends share: counters, recent decisions, profiles, buckets, scope names. |
| `guc`, `time`, `stats` | Settings, sleeping in pieces, and the rows of the statistics functions. |

Each function states in `ensures` what it returns and changes. Statements about more than one function
are proof functions whose names begin with `law_`. Among them:

- The predictions that a bucket is charged with up to any time, with nothing refunded in between, are
  at most its burst plus its rate times the time that passed (`budget::law_admitted_wal_is_bounded`).
- Shadow mode foretells what reject mode does (`budget::law_shadow_foretells_reject`), and a queued
  statement that has slept out its wait fits, and no sooner (`budget::law_waiting_is_enough`,
  `budget::law_wait_is_least`).
- A refused statement is charged nothing (`budget::law_refused_statement_is_not_charged`), and one that
  waits is neither counted, recorded nor charged
  (`admission::law_waiting_is_neither_counted_nor_charged`).
- Where the settings say so, an internal error never keeps a statement from running
  (`lifecycle::law_fail_open_never_fails_internally`).
- Profiles that are written to the store and restored from it read as before
  (`profile_store::law_profiles_outlive_shared_memory`).

One function of the standard library is taken on trust: `String::push`, in `text`.

## The extension, `app/`

`app/` reads the settings, the clock, the session and PostgreSQL's nodes, holds the shared memory
segment and its lock, runs the SQL, and hands the library plain values. SQL never runs under the lock:
what a decision needs from the tables is read before. A statement that has to wait sleeps outside of
the library, which is asked again after the wait.

The roles, the schema, the tables and the functions of the `pwb` schema are made by the scripts under
`extras/sql/`, which the extension installs.
