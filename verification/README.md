# crudly

SQL statement building and derive planning for CRUD helpers over SQLite, MySQL and Postgres,
verified with Verus.

- `src/` is the verified library: the statements each CRUD operation sends (`sql`, `executor`),
  the placeholder syntax of each database (`placeholder`), how many-row operations are split into
  batches, the naming rules (`naming`), and the two derives' decisions — which attributes are
  accepted, which columns a struct has, how its fields are bound and which impls are emitted
  (`derive`). Every public function has a contract over plain values; the properties that span
  functions are proof functions (`derive::laws`, `sql`, `placeholder`).
- `app/` is the unverified runtime around it: the sqlx-facing traits and async operations that
  run the statements, and the conversion between `syn` tokens and the library's derive model.
- `tests/` exercises the library on concrete values.
