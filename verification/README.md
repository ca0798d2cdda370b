# Memgraph Connector

A connector that lets a host application open connections to Memgraph, run Cypher statements on
them and read the schema of a graph. The logic is written in Rust and verified with Verus.

## Calls

| Method | Answer |
| --- | --- |
| `health`, `ping` | The engine, the version of the calling convention and the driver status. |
| `describe`, `capabilities` | The same, with the extension manifest and the connector configuration. |
| `manifest`, `config` | The text of one of these documents. |
| `connect` | Opens a connection; tells its database and the version of the server. |
| `query` | Runs a statement; gives its columns, its rows and whether rows were left out. |
| `metadata` | Describes the node labels and relationship types of the database. |
| `close` | Closes a connection; tells whether it was open. |

## Layout

- `src/` is the library. Every function states what it returns or changes, and Verus proves it.
  - `driver` starts calls and goes on with them. It does not wait for the server itself: it says
    which connection is to be opened or which statement is to be run, and takes the outcome.
  - `config` reads settings from a request and redacts error messages.
  - `rows` turns the records that a server delivers into a table.
  - `metadata`, `walk` and `version` hold the statements that ask for the schema and the version,
    and what is made of the answers.
  - `connections` is the table of open connections.
  - `json`, `parse`, `text`, `reply` and `fault` are what the others are made of.
  - `bolt` builds the values that the Bolt driver `neo4rs` is handed.
  - `laws` states what holds of the library as a whole, such as that redacted messages do not show
    what they must hide, that escaped names read back, and that a connection can be used once it
    was opened and until it is closed.
- `app/` is the code around the library: the calling convention of the host, the lock around the
  table of connections, the runtime, and the calls into `neo4rs` that reach the server.
- `tests/` runs the library.

What the proofs take for granted is marked in the source: a few contracts of `neo4rs` and
`serde_json`, each with a comment that says what it claims.
