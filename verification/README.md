# stream_schema

Verified schema bookkeeping for the streams of an ingestion service.

Records that arrive for a stream are held against the schema of the stream. The schema is brought up
to them where they bring new columns or wider types, a stream with many columns may be narrowed to
those that its settings define, and records with too many columns are refused.

- `src/` is the library, proved with Verus. It makes every decision and calls no service: the steps
  of `check` and `diff` say which call is due and take its outcome.
- `app/` runs these steps against the services of a node and converts schemas to and from Arrow.
- `tests/` holds the library to concrete values.

What is trusted is marked in `src/` where it stands: the hash set of `hashbrown` (`name_set`), the
JSON reader of `serde_json` (`json`), std's reading of numbers (`text`), and the clock (`check`).
