# turbobench

MCP server benchmarking proxy: it sits between an MCP client and one or two MCP
servers, passes the calls on, records latency, bytes and estimated tokens of each,
and reports on them.

The project is a verified library and a program around it.

- `src/` is the library, verified with Verus. It holds what the proxy decides and
  computes: what becomes of a line of input, which backend call a request asks
  for, what is recorded of a call, the statistics, and the layout of a report.
- `app/` is the program: command line, config and report files, connections,
  frontends and the terminal. Floating point numbers exist only here; the library
  keeps the exact sums and percentiles that they are made from.
- `tests/` runs the library with the crates that it calls.

`turbomcp-core` and `turbomcp-types` are named in `Cargo.toml` only to hold them
at the version of the other turbomcp crates, which do not build with later ones.

## Modules

| Module | Subject |
|---|---|
| `bench` | lines of input, routing, replies, recording, sessions |
| `metrics` | call records, the bounded store, summaries and reports |
| `latency` | order statistics of latencies |
| `report` | numbers as texts, tables and comparison of a report |
| `config` | config file and command line, transports, names |
| `json`, `rpc` | JSON values and JSON-RPC messages of the outside crates |
| `clock` | points in time and time spans |
| `tokens`, `rounding` | token estimates, binary64 rounding on integers |
| `text`, `order`, `totals` | texts, sorting by rank, sums over sequences |

What the outside crates do is stated in the contracts of small functions in
`json`, `rpc`, `config`, `clock`, `bench`, `latency` and `text`, each with a doc
comment that says what is relied upon. Proof functions whose names begin with
`law_` state what holds of the library as a whole.
