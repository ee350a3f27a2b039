# transaction_writes

The write set of a database transaction, verified with Verus.

A transaction writes documents through `Writes::update`. The write set

- coalesces all writes to a document into one change, from what the document
  was before the transaction to what it is after it;
- counts the writes and their bytes, separately for user and system tables,
  and refuses writes beyond configured limits;
- lets each document id be allocated only once;
- records the reads on which a write depends: that its table still exists, that
  the indexes of its table stay as they are, and that nobody else creates the
  documents it inserts.

## Layout

| File | Contents |
| --- | --- |
| `src/writes.rs` | `Writes`, the write set itself |
| `src/model.rs` | what a write set holds, and what each operation does to it |
| `src/laws.rs` | what holds of all write sets and all reads |
| `src/reads.rs` | index reads, and which changes conflict with them |
| `src/document.rs`, `src/ids.rs` | documents and identifiers |
| `src/error.rs`, `src/decimal.rs` | why a write is refused, in words |
| `app/` | the seam between the write set and a database |

The database supplies what only it knows: the limits of its configuration, the
sizes and encodings of its values and identifiers, and the read set into which
the recorded reads go.
