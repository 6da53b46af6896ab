# Plugin statistics

A service that collects statistics events from game servers and writes them to
MySQL in batches. Senders speak a line protocol of JSON messages over TCP. An
accepted event is journalled before it is acknowledged, deduplicated by its
identifier, and replayed after a restart where it was not written.

`src/` is the library: every decision of the service, with contracts that Verus
proves.

| Module | What it decides |
| --- | --- |
| `text`, `tickrate`, `clock` | texts, tick rates as bit patterns, time |
| `config` | settings, the shared token, loopback addresses |
| `frame` | lines out of a byte stream that comes in pieces |
| `event` | the normal form of an event |
| `connection` | what each frame and message of a client is answered |
| `ingest` | what is queued for a batch, and whether there is room |
| `queue`, `completion`, `dedupe`, `stats` | the shared state |
| `journal`, `replay` | what the journal says after a restart |
| `database`, `writer` | the statements of a batch's transaction, one after the other |
| `written` | what a transaction comes to, whatever the database replies |
| `outcome` | what follows from a batch that was written or was not |
| `schema` | the tables, and the statements that create them |

Functions named `law_..` state what holds of several functions together.

`app/` is the daemon round the library: sockets, files, threads, JSON and the
database. It asks the library what to do, does it, and hands back what came of
it. `tests/` runs the library on concrete values.

Three things are taken on trust, each with its contract beside it: reading the
system clock, decoding UTF-8 and appending a character to a string.
