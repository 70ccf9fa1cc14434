# dbmigrator

Schema change management for SQL databases: migration recipes (baseline,
upgrade, revert, fixup scripts), their ordering and checks, the consolidation
of the changelog table into the effective state, and the planner that decides
which recipes a database still needs.

The library under `src/` is verified with Verus:

- `recipe`, `metadata`, `checksum`: recipe scripts, their `-- key: value`
  metadata and SHA-256 checksums;
- `version`, `order`: version comparators and the ordering and checking of a
  recipe collection;
- `changelog`, `migrator`: changelog entries, their consolidation, the
  migration planner and the check of the planned changelog;
- `loader`, `pattern`: naming recipe files by a regular expression;
- `ddl`: placing the entries of a PostgreSQL schema dump in DDL files by rules;
- `statements`, `cli`: the changelog table's SQL statements and the command
  line's options and labels;
- `laws`, `plan_laws`: properties of the library that span its functions.

`app/` is the command line tool around it: option parsing, file discovery,
the PostgreSQL driver and the printed reports.
