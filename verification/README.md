# snapshot_manager

Multiversioned snapshots of a database, verified with Verus.

- `snapshot_manager`: the recent versions, each at its timestamp; reads as of a
  timestamp; the window that bounds how far the versions reach back.
- `snapshot`: the state at one timestamp; the user tables; the storage that
  their documents and indexes take up.
- `snapshot_update`: the steps in which a document write is taken in. Most
  parts of a snapshot are updated by services outside the library, so a step
  says which one to call, with what, and goes on with what came of it.
- `table_summaries`: how many documents the tables hold and how large they are.
- `summary_map`: the functions of `imbl::OrdMap` that the summaries use. What
  they state is believed, not proved.
- `table_mapping`, `storage`, `order`, `totals`, `types`: what the above are
  written in.
- `laws`: what holds of the library as a whole.

`app/` joins the library to its services and to `anyhow`.
