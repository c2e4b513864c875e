# tbd

A database mapper. Models know nothing of their persistence: relations
describe how models are stored, repositories say which relations they hold,
gateways talk to the storage, queries are built from typed pieces and
compiled to SQL, and changesets collect inserts that a gateway applies in one
transaction.

Layout:

- `src/` — the library, verified with Verus.
  - `key`, `wrapper`: primary keys, the little-endian bytes in which a
    gateway reports a new key, and `Keyed`, the wrapper that keeps it.
  - `fieldset`, `relation`, `gateway`: fields and field sets, relations,
    repositories, gateways and their transactions.
  - `query`, `compile`: query building and its SQL text.
  - `changeset`: changesets and the order in which their inserts reach a
    transaction.
  - `sqlite`: the statements an SQLite gateway sends and what it keeps of
    the answers.
  - `executor`: a small task executor with a bounded first-in first-out
    queue.
  - `memory`, `blog`: a blog held in memory, and a blog schema for SQL.
  - `text`: decimal numerals and separated lists.
- `tests/` — tests of the library.
- `app/` — the demo program: it runs both blogs on the executor and does
  the printing and the SQLite calls.
