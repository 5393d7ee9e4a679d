# playoh

The admin and function-runtime service `playoh`, with its logic in a library
verified by Verus.

- `src/` is the library. Each module states in `requires`/`ensures` what its
  functions do, over spec functions and views:
  - `menu`, `menu_tree_laws`, `menu_service`, `menu_page`: router entries built from `sys_menu`
    rows, the parent/child tree, the steps of adding, changing and deleting a
    menu, and the statements of a paged, filtered menu listing.
  - `sql`, `pg_args`: the statements that grant and revoke roles and role
    permissions, with the values bound to their placeholders.
  - `auth`, `password`, `error`, `response`, `pagination`, `transaction`:
    session checks, password checks, how errors and responses are answered,
    paging, and the rollback-only mark of a transaction.
  - `oper_log`, `runtime`, `run_messages`, `function`: the operation log, the
    script a function runs as, the messages a running script posts back, and
    the history entry of a function.
  - `text`, `ids`, `rand_utils`: string helpers, UUID parsing, random strings.
- `tests/` runs the library on concrete values.
- `app/` is the HTTP server: settings, the database pool, the routes, and the
  serde copies of the library's types.
