# pg_viewctl

Dependency-aware schema changes for PostgreSQL views: a library that plans
the SQL steps of a change (replacing a view's body, dropping a table column)
so that every dependent view is dropped leaf-first, recreated base-first,
re-granted and refreshed; plus the messages of column deprecation and the
logic of the `pg_viewctl` command.

Layout:

- `src/` — the library, written in Verus and verified:
  - `plan.rs`: migration plans and their contracts;
  - `plan_laws.rs`: properties every plan has (phase order, dependent order,
    grants restored, materialized views refreshed);
  - `text.rs`: identifier quoting, trimming, decimal numerals;
  - `target.rs`: splitting `schema.object[.column]` targets;
  - `deprecation.rs`: deprecation warnings and answers;
  - `cli.rs`: target parsing, queries and report of the command.
- `app/` — the command (`main.rs`) and the PostgreSQL extension functions
  (`extension.rs`, built with pgrx as its own library): the database I/O
  around the library.
- `tests/` — tests of the library.
