# tabularis-clickhouse-plugin

A ClickHouse driver for Tabularis, speaking JSON-RPC 2.0 over stdin and stdout.
The decisions it makes are a verified library; the program around them reads
requests, talks to the server and writes responses.

- `src/` — the library, verified with Verus:
  - `text`: trimming, search, decimal rendering, line splitting;
  - `escape`: string and identifier escaping, with their round-trip laws;
  - `value`: JSON values as the library holds them, rendered as SQL literals;
  - `query`: classifying, splitting and paging a user's query, shaping result pages;
  - `sql`: the SQL text of every schema query and DDL statement the plugin sends;
  - `schema`: tables, columns, views and indexes read from `system` table rows;
  - `connection`: connection parameters and the pool of clients, one per connection;
  - `rpc`: method names, what each method does, and the error codes of failures.
- `app/` — the executable: the request loop, the ClickHouse calls (on a Tokio
  runtime) and the JSON conversions.
- `tests/` — tests of the library on concrete values.
