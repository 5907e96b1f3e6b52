//! The rooms that exist, each found by its id, and the channels that reach
//! each room.

use dashmap::DashMap;
use vstd::prelude::*;

use crate::external::{
    bounded_channel, broadcast_sender, clone_broadcast_sender, clone_mpsc_sender,
};
use crate::types::{CursorUpdate, RoomCommand, RoomEvent};

verus! {

/// How many commands, events or cursor updates each of a room's channels holds.
pub const ROOM_CHANNEL_CAPACITY: usize = 256;

/// The channels through which a connection talks to a room: commands to the
/// room's actor and to its cursor actor, and the room's event and cursor
/// broadcasts.
pub struct RoomHandle {
    pub command_tx: tokio::sync::mpsc::Sender<RoomCommand>,
    pub cursor_command_tx: tokio::sync::mpsc::Sender<RoomCommand>,
    pub event_tx: tokio::sync::broadcast::Sender<RoomEvent>,
    pub cursor_tx: tokio::sync::broadcast::Sender<CursorUpdate>,
}

impl Clone for RoomHandle {
    fn clone(&self) -> (r: Self)
        ensures
            r == *self,
    {
        RoomHandle {
            command_tx: clone_mpsc_sender(&self.command_tx),
            cursor_command_tx: clone_mpsc_sender(&self.cursor_command_tx),
            event_tx: clone_broadcast_sender(&self.event_tx),
            cursor_tx: clone_broadcast_sender(&self.cursor_tx),
        }
    }
}

/// The receiving ends of a new room's command channels, for its two actors.
pub struct RoomInbox {
    pub command_rx: tokio::sync::mpsc::Receiver<RoomCommand>,
    pub cursor_command_rx: tokio::sync::mpsc::Receiver<RoomCommand>,
}

/// The rooms that a `DashMap` holds, by room id.
pub uninterp spec fn room_table(rooms: DashMap<String, RoomHandle>) -> Map<Seq<char>, RoomHandle>;

/// Calls `dashmap::DashMap::new`, which makes an empty map.
#[verifier::external_body]
fn new_room_table() -> (r: DashMap<String, RoomHandle>)
    ensures
        room_table(r).dom() == Set::<Seq<char>>::empty(),
{
    DashMap::new()
}

/// Calls `dashmap::DashMap::get`, which finds the value stored under a key,
/// and clones what it finds with `RoomHandle::clone`. The map is taken
/// by `&mut` so that no other reference can change it during the call.
#[verifier::external_body]
fn room_table_get(rooms: &mut DashMap<String, RoomHandle>, room_id: &str) -> (r: Option<RoomHandle>)
    ensures
        room_table(*final(rooms)) == room_table(*old(rooms)),
        room_table(*old(rooms)).contains_key(room_id@) ==> r == Some(room_table(*old(rooms))[room_id@]),
        !room_table(*old(rooms)).contains_key(room_id@) ==> r is None,
{
    rooms.get(room_id).map(|entry| entry.value().clone())
}

/// Calls `dashmap::DashMap::insert`, which stores a value under a key and
/// replaces the one stored there before. The map is taken by `&mut` so that
/// the change shows in the contract.
#[verifier::external_body]
fn room_table_insert(rooms: &mut DashMap<String, RoomHandle>, room_id: String, handle: RoomHandle)
    ensures
        room_table(*final(rooms)) == room_table(*old(rooms)).insert(room_id@, handle),
{
    rooms.insert(room_id, handle);
}

/// What asking for a room does to the registry: a registered room comes back
/// and nothing changes; otherwise the room is made, comes back, and is
/// registered under its id.
pub open spec fn get_or_create_outcome(
    before: Map<Seq<char>, RoomHandle>,
    after: Map<Seq<char>, RoomHandle>,
    room_id: Seq<char>,
    handle: RoomHandle,
    created: bool,
) -> bool {
    if before.contains_key(room_id) {
        &&& handle == before[room_id]
        &&& !created
        &&& after == before
    } else {
        &&& created
        &&& after == before.insert(room_id, handle)
    }
}

/// Asking twice for the same room gives the same room, and only the first
/// request makes it.
pub proof fn lemma_room_made_once(
    rooms0: Map<Seq<char>, RoomHandle>,
    rooms1: Map<Seq<char>, RoomHandle>,
    rooms2: Map<Seq<char>, RoomHandle>,
    room_id: Seq<char>,
    first: RoomHandle,
    first_created: bool,
    second: RoomHandle,
    second_created: bool,
)
    requires
        get_or_create_outcome(rooms0, rooms1, room_id, first, first_created),
        get_or_create_outcome(rooms1, rooms2, room_id, second, second_created),
    ensures
        second == first,
        !second_created,
        rooms2 == rooms1,
        rooms1.contains_key(room_id),
{
}

/// Asking for one room leaves every other room as it was.
pub proof fn lemma_other_rooms_kept(
    before: Map<Seq<char>, RoomHandle>,
    after: Map<Seq<char>, RoomHandle>,
    room_id: Seq<char>,
    handle: RoomHandle,
    created: bool,
    other: Seq<char>,
)
    requires
        get_or_create_outcome(before, after, room_id, handle, created),
        other != room_id,
    ensures
        after.contains_key(other) == before.contains_key(other),
        before.contains_key(other) ==> after[other] == before[other],
{
}

/// Whether a sequence of requests for rooms is what a registry went
/// through: `rooms[k]` are its rooms before request `k`, which asked for
/// `room_ids[k]`, got `handles[k]`, and made the room when `created[k]`.
pub open spec fn request_history(
    rooms: Seq<Map<Seq<char>, RoomHandle>>,
    room_ids: Seq<Seq<char>>,
    handles: Seq<RoomHandle>,
    created: Seq<bool>,
) -> bool {
    &&& rooms.len() == room_ids.len() + 1
    &&& handles.len() == room_ids.len()
    &&& created.len() == room_ids.len()
    &&& forall|k: int|
        0 <= k < room_ids.len() ==> get_or_create_outcome(
            #[trigger] rooms[k],
            rooms[k + 1],
            room_ids[k],
            handles[k],
            created[k],
        )
}

/// Along a history of requests, no room is ever dropped or replaced.
pub proof fn lemma_rooms_never_shrink(
    rooms: Seq<Map<Seq<char>, RoomHandle>>,
    room_ids: Seq<Seq<char>>,
    handles: Seq<RoomHandle>,
    created: Seq<bool>,
    a: int,
    b: int,
)
    requires
        request_history(rooms, room_ids, handles, created),
        0 <= a <= b < rooms.len(),
    ensures
        forall|r: Seq<char>|
            #![trigger rooms[a].contains_key(r)]
            rooms[a].contains_key(r) ==> rooms[b].contains_key(r) && rooms[b][r] == rooms[a][r],
    decreases b - a,
{
    if a < b {
        lemma_rooms_never_shrink(rooms, room_ids, handles, created, a, b - 1);
        assert(get_or_create_outcome(rooms[b - 1], rooms[b], room_ids[b - 1], handles[b - 1], created[b - 1]));
        assert forall|r: Seq<char>| rooms[b - 1].contains_key(r) implies rooms[b].contains_key(r)
            && rooms[b][r] == rooms[b - 1][r] by {
            if r != room_ids[b - 1] {
                lemma_other_rooms_kept(rooms[b - 1], rooms[b], room_ids[b - 1], handles[b - 1], created[b - 1], r);
            }
        }
        assert forall|r: Seq<char>| rooms[a].contains_key(r) implies rooms[b].contains_key(r)
            && rooms[b][r] == rooms[a][r] by {
            assert(rooms[b - 1].contains_key(r) && rooms[b - 1][r] == rooms[a][r]);
        }
    }
}

/// Along a history of requests, every later request for a room gets the
/// handle of the first, and makes nothing, whatever came in between.
pub proof fn lemma_same_room_after_other_requests(
    rooms: Seq<Map<Seq<char>, RoomHandle>>,
    room_ids: Seq<Seq<char>>,
    handles: Seq<RoomHandle>,
    created: Seq<bool>,
    a: int,
    b: int,
)
    requires
        request_history(rooms, room_ids, handles, created),
        0 <= a < b < room_ids.len(),
        room_ids[a] == room_ids[b],
    ensures
        handles[b] == handles[a],
        !created[b],
        rooms[b + 1] == rooms[b],
{
    assert(get_or_create_outcome(rooms[a], rooms[a + 1], room_ids[a], handles[a], created[a]));
    assert(rooms[a + 1].contains_key(room_ids[a]) && rooms[a + 1][room_ids[a]] == handles[a]);
    lemma_rooms_never_shrink(rooms, room_ids, handles, created, a + 1, b);
    assert(get_or_create_outcome(rooms[b], rooms[b + 1], room_ids[b], handles[b], created[b]));
}

/// The rooms of the server, each made when it is first asked for.
pub struct RoomRegistry {
    rooms: DashMap<String, RoomHandle>,
}

impl RoomRegistry {
    /// The rooms, by room id.
    pub closed spec fn rooms(&self) -> Map<Seq<char>, RoomHandle> {
        room_table(self.rooms)
    }

    /// A registry without rooms.
    pub fn new() -> (r: Self)
        ensures
            r.rooms().dom() == Set::<Seq<char>>::empty(),
    {
        RoomRegistry { rooms: new_room_table() }
    }

    /// The room with the given id. When there is none yet, its channels are
    /// opened, it is registered, and the receiving ends come back with it so
    /// that its actors can be started; otherwise the registered room comes
    /// back, and nothing else.
    pub fn get_or_create(&mut self, room_id: &str) -> (r: (RoomHandle, Option<RoomInbox>))
        ensures
            get_or_create_outcome(old(self).rooms(), final(self).rooms(), room_id@, r.0, r.1 is Some),
    {
        match room_table_get(&mut self.rooms, room_id) {
            Some(handle) => (handle, None),
            None => {
                let (command_tx, command_rx) = bounded_channel(ROOM_CHANNEL_CAPACITY);
                let (cursor_command_tx, cursor_command_rx) = bounded_channel(ROOM_CHANNEL_CAPACITY);
                let event_tx = broadcast_sender(ROOM_CHANNEL_CAPACITY);
                let cursor_tx = broadcast_sender(ROOM_CHANNEL_CAPACITY);
                let handle = RoomHandle { command_tx, cursor_command_tx, event_tx, cursor_tx };
                room_table_insert(&mut self.rooms, room_id.to_owned(), handle.clone());
                (handle, Some(RoomInbox { command_rx, cursor_command_rx }))
            },
        }
    }
}

} // verus!
