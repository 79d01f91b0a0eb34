# pahoa

The logic of a multiworld room server, verified with Verus.

A room hosts many players, each in a world of their own, and passes the items that they find to
whom they belong. This crate holds what such a server decides:

- `datastore`: the values that clients keep in a room, and the operations on them, with the meaning
  that Python gives them. Integers are exact at any width.
- `multidata`: a seed, read from its file and checked before a room is opened on it: slots, the table
  of locations, hints, versions, and the names of items and places.
- `net`: what is sent to whom and how much of it may wait; who may do what over HTTP and what is
  answered; what is counted, saved, and written into the history; how a certificate is renewed and a
  silent peer is found out.
- `table`, `text`, `json`: ordered tables, text and JSON, which the others stand on.

Every executable function states what it does in `ensures`, over mathematical models. What holds of
several of them together stands as a public proof function whose doc comment says it in words: no
byte is taken off the books twice, a change is not forgotten, a drop from the history is never
silent, only a path that is guarded leads to what is the administrator's.

What other crates compute is called through a few wrappers whose contracts are taken on trust; each
says in its doc comment which function it calls and what is claimed of it. Floating-point arithmetic
is not done here: an operation that needs it says so, and goes on with what was computed.

`app/` is ordinary Rust around the library: tasks, sockets, files and the clock. The game and the
framing of WebSocket messages are handed to it. `tests/` runs the library with the real crates.
