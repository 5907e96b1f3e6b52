# rooms_server

The room logic of a WebTransport server for a collaborative canvas, verified
with Verus, and the server around it.

- `src/types.rs` — the messages (elements, cursor updates, join metadata,
  commands, events, snapshots) and their views.
- `src/room.rs` — `RoomState`: a room's canvas and members, the step function
  that answers joins, element updates, departures and cursor commands, and
  the laws that those steps obey.
- `src/registry.rs` — `RoomRegistry`: the rooms by id, each made once. It is
  changed through `&mut`, so the server holds it behind one `Mutex`, taken
  only while a room is looked up or made; the rooms themselves then run
  independently, each behind its own channels.
- `src/session.rs` — what a connection decides: the room a path names, the
  user id of a session, which events and cursors reach a client, the frame
  of an event, and the reader's next step.
- `src/external.rs` — the outside types the library carries and the calls it
  makes into tokio, uuid and std.
- `app/` — the executable: TLS identity, endpoint, sessions, MessagePack
  encoding, and the tasks that run each room.
