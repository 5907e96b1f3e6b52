//! What a connection decides: which room a session asks for, which user it
//! speaks for, which events and cursors reach it, and how events are framed.

use vstd::prelude::*;
use vstd::std_specs::iter::IteratorSpec;

use crate::external::{is_hyphenated_uuid_v4, random_user_id, str_strip_prefix};
use crate::types::{
    opt_string_view, CursorUpdate, CursorUpdateView, JoinMetadata, JoinMetadataView, RoomCommand,
    RoomEvent,
};

verus! {

broadcast use vstd::string::group_string_axioms;

/// The path prefix under which rooms are reached.
pub open spec fn rooms_prefix() -> Seq<char> {
    seq!['/', 'r', 'o', 'o', 'm', 's', '/']
}

/// The room id that a session path names: what follows `/rooms/`, when that
/// is not empty and holds no further `/`.
pub open spec fn path_room_id(path: Seq<char>) -> Option<Seq<char>> {
    if rooms_prefix().is_prefix_of(path) {
        let rest = path.skip(rooms_prefix().len() as int);
        if rest.len() > 0 && !rest.contains('/') {
            Some(rest)
        } else {
            None
        }
    } else {
        None
    }
}

fn is_empty_text(s: &str) -> (r: bool)
    ensures
        r == (s@.len() == 0),
{
    let mut chars = s.chars();
    match chars.next() {
        Some(_) => false,
        None => true,
    }
}

fn contains_slash(s: &str) -> (r: bool)
    ensures
        r == s@.contains('/'),
{
    let mut chars = s.chars();
    let ghost mut seen: Seq<char> = Seq::empty();
    loop
        invariant
            chars.obeys_prophetic_iter_laws(),
            seen + chars.remaining() == s@,
            !seen.contains('/'),
            chars.decrease() is Some,
        decreases chars.decrease()->0,
    {
        match chars.next() {
            Some(c) => {
                if c == '/' {
                    assert(s@[seen.len() as int] == '/');
                    return true;
                }
                proof {
                    seen = seen.push(c);
                    assert(seen + chars.remaining() =~= s@);
                }
            },
            None => {
                assert(seen =~= s@);
                return false;
            },
        }
    }
}

/// The room id of a session path, as `path_room_id` defines it.
pub fn room_id_from_path(path: &str) -> (r: Option<String>)
    ensures
        match r {
            Some(id) => path_room_id(path@) == Some(id@),
            None => path_room_id(path@) is None,
        },
{
    let prefix = "/rooms/";
    proof {
        reveal_strlit("/rooms/");
        assert(prefix@ =~= rooms_prefix());
    }
    match str_strip_prefix(path, prefix) {
        Some(rest) => {
            if !is_empty_text(rest) && !contains_slash(rest) {
                Some(rest.to_owned())
            } else {
                None
            }
        },
        None => None,
    }
}

/// The user id a client asked for in its join metadata, when it asked for a
/// non-empty one.
pub open spec fn requested_user_id_of(metadata: JoinMetadataView) -> Option<Seq<char>> {
    match metadata.user_id {
        Some(id) => if id.len() > 0 { Some(id) } else { None },
        None => None,
    }
}

/// The user id a client asked for, as `requested_user_id_of` defines it.
pub fn requested_user_id(metadata: &JoinMetadata) -> (r: Option<String>)
    ensures
        opt_string_view(r) == requested_user_id_of(metadata@),
        match metadata.user_id {
            Some(id) => if id@.len() > 0 {
                r matches Some(kept) && kept@ == id@
            } else {
                r is None
            },
            None => r is None,
        },
{
    match &metadata.user_id {
        Some(id) => {
            if is_empty_text(id.as_str()) {
                None
            } else {
                Some(id.clone())
            }
        },
        None => None,
    }
}

/// The user id a session speaks for: the one the client asked for, or else a
/// fresh random version 4 UUID in hyphenated form.
pub fn session_user_id(metadata: &JoinMetadata) -> (r: String)
    ensures
        match requested_user_id_of(metadata@) {
            Some(id) => r@ == id,
            None => is_hyphenated_uuid_v4(r@),
        },
        r@.len() > 0,
        match metadata.user_id {
            Some(id) => id@.len() > 0 ==> r@ == id@,
            None => true,
        },
{
    match requested_user_id(metadata) {
        Some(id) => id,
        None => random_user_id(),
    }
}

/// Whether an event is about the given user; a client is not told its own
/// events.
pub fn is_own_event(event: &RoomEvent, user_id: &String) -> (r: bool)
    ensures
        r == (event@.user_id() == user_id@),
{
    match event {
        RoomEvent::UserJoined { user_id: id, .. } => *id == *user_id,
        RoomEvent::UserLeft { user_id: id, .. } => *id == *user_id,
        RoomEvent::ElementUpdated { user_id: id, .. } => *id == *user_id,
    }
}

/// Whether a cursor update is the given user's own.
pub open spec fn is_own_cursor_of(cursor: CursorUpdateView, user_id: Seq<char>) -> bool {
    cursor.user_id == user_id
}

/// A cursor update as it is relayed for a session: the session's user id,
/// the position unchanged.
pub open spec fn stamped_cursor(cursor: CursorUpdateView, user_id: Seq<char>) -> CursorUpdateView {
    CursorUpdateView { user_id, x_bits: cursor.x_bits, y_bits: cursor.y_bits }
}

/// What a cursor actor does with one command: it relays a cursor update
/// unchanged, and nothing else.
pub open spec fn cursor_relay(command: RoomCommand) -> Option<CursorUpdate> {
    match command {
        RoomCommand::BroadcastCursor { cursor } => Some(cursor),
        _ => None,
    }
}

/// The cursors a cursor actor relays from a sequence of commands, in order:
/// one per command, until the first command that is not a cursor update,
/// after which it reads nothing more.
pub open spec fn relayed_cursors(commands: Seq<RoomCommand>) -> Seq<CursorUpdate>
    decreases commands.len(),
{
    if commands.len() == 0 {
        Seq::empty()
    } else {
        match cursor_relay(commands[0]) {
            Some(c) => seq![c] + relayed_cursors(commands.drop_first()),
            None => Seq::empty(),
        }
    }
}

/// Whether a cursor update is the given user's own; a client is not sent its
/// own cursor.
pub fn is_own_cursor(cursor: &CursorUpdate, user_id: &String) -> (r: bool)
    ensures
        r == is_own_cursor_of(cursor@, user_id@),
{
    cursor.user_id == *user_id
}

/// A cursor update as the server relays it: whatever user id the client put
/// in it, it carries the id of the session it came from.
pub fn stamp_cursor(cursor: CursorUpdate, user_id: &String) -> (r: CursorUpdate)
    ensures
        r@ == stamped_cursor(cursor@, user_id@),
        r.user_id@ == user_id@,
        r.x_bits == cursor.x_bits,
        r.y_bits == cursor.y_bits,
{
    CursorUpdate { user_id: user_id.clone(), x_bits: cursor.x_bits, y_bits: cursor.y_bits }
}

/// What a cursor actor does with a command: it relays a cursor update, and
/// stops at any other command.
pub fn cursor_to_relay(command: RoomCommand) -> (r: Option<CursorUpdate>)
    ensures
        r == cursor_relay(command),
{
    match command {
        RoomCommand::BroadcastCursor { cursor } => Some(cursor),
        _ => None,
    }
}

/// What a connection's reader sees next.
pub enum ConnectionInput {
    /// The client closed the connection.
    Closed,
    /// The client opened a stream that carries an element.
    StreamAccepted,
    /// Accepting the next stream failed.
    StreamFailed,
    /// A datagram arrived; it holds the cursor update it decoded to, if any.
    Datagram(Option<CursorUpdate>),
    /// The datagram channel failed.
    DatagramsFailed,
}

/// What a connection's reader does next.
pub enum ConnectionAction {
    /// Stop reading: the session is over.
    Stop,
    /// Read the new stream's element and hand it to the room.
    ReadElementStream,
    /// Send this command to the room's cursor actor.
    QueueCursor(RoomCommand),
    /// Drop a datagram that held no cursor update.
    SkipDatagram,
}

/// The cursor, if any, that a connection reader queues for an input.
pub open spec fn queued_cursor(input: ConnectionInput, user_id: Seq<char>) -> Option<CursorUpdateView> {
    match input {
        ConnectionInput::Datagram(Some(cursor)) => Some(stamped_cursor(cursor@, user_id)),
        _ => None,
    }
}

/// Decides a connection reader's next step: it stops when the connection
/// closes or a channel fails, reads every new stream as an element, and
/// relays each decoded cursor update, stamped with the session's user id.
pub fn connection_action(input: ConnectionInput, user_id: &String) -> (r: ConnectionAction)
    ensures
        match input {
            ConnectionInput::Closed => r is Stop,
            ConnectionInput::StreamAccepted => r is ReadElementStream,
            ConnectionInput::StreamFailed => r is Stop,
            ConnectionInput::Datagram(None) => r is SkipDatagram,
            ConnectionInput::Datagram(Some(cursor)) => r matches ConnectionAction::QueueCursor(
                RoomCommand::BroadcastCursor { cursor: sent },
            ) && sent@ == stamped_cursor(cursor@, user_id@) && sent.user_id@ == user_id@ && sent.x_bits
                == cursor.x_bits && sent.y_bits == cursor.y_bits,
            ConnectionInput::DatagramsFailed => r is Stop,
        },
        match r {
            ConnectionAction::QueueCursor(command) => command matches RoomCommand::BroadcastCursor {
                cursor: sent,
            } && queued_cursor(input, user_id@) == Some(sent@),
            _ => queued_cursor(input, user_id@) is None,
        },
{
    match input {
        ConnectionInput::Closed => ConnectionAction::Stop,
        ConnectionInput::StreamAccepted => ConnectionAction::ReadElementStream,
        ConnectionInput::StreamFailed => ConnectionAction::Stop,
        ConnectionInput::Datagram(None) => ConnectionAction::SkipDatagram,
        ConnectionInput::Datagram(Some(cursor)) => {
            let cursor = stamp_cursor(cursor, user_id);
            ConnectionAction::QueueCursor(RoomCommand::BroadcastCursor { cursor })
        },
        ConnectionInput::DatagramsFailed => ConnectionAction::Stop,
    }
}

/// The four bytes of a number, most significant first.
pub open spec fn be_u32_bytes(n: u32) -> Seq<u8> {
    seq![
        (n / 0x100_0000) as u8,
        ((n / 0x1_0000) % 0x100) as u8,
        ((n / 0x100) % 0x100) as u8,
        (n % 0x100) as u8,
    ]
}

/// The number that four bytes, most significant first, stand for.
pub open spec fn be_u32_value(b: Seq<u8>) -> int {
    b[0] * 0x100_0000 + b[1] * 0x1_0000 + b[2] * 0x100 + b[3]
}

/// The length that a frame header records for a payload: its byte count,
/// kept to 32 bits.
pub open spec fn frame_length(payload_len: nat) -> u32 {
    (payload_len % 0x1_0000_0000) as u32
}

/// A frame as an event is written to a client's event stream: the payload's
/// length in four bytes, most significant first, then the payload.
pub fn event_frame(payload: &[u8]) -> (r: Vec<u8>)
    ensures
        r@ == be_u32_bytes(frame_length(payload@.len())) + payload@,
{
    let n: u32 = (payload.len() as u64 % 0x1_0000_0000u64) as u32;
    let mut frame: Vec<u8> = Vec::new();
    frame.push((n / 0x100_0000) as u8);
    frame.push(((n / 0x1_0000) % 0x100) as u8);
    frame.push(((n / 0x100) % 0x100) as u8);
    frame.push((n % 0x100) as u8);
    let mut i: usize = 0;
    while i < payload.len()
        invariant
            i <= payload.len(),
            n == frame_length(payload@.len()),
            frame@ == be_u32_bytes(n) + payload@.take(i as int),
        decreases payload.len() - i,
    {
        frame.push(payload[i]);
        proof {
            assert(payload@.take(i + 1) =~= payload@.take(i as int).push(payload@[i as int]));
        }
        i = i + 1;
    }
    proof {
        assert(payload@.take(payload@.len() as int) =~= payload@);
    }
    frame
}

/// The room id of `/rooms/<id>` is `<id>`, for every non-empty id without a
/// `/`; and every path that names a room is of that form.
pub proof fn lemma_room_path_round_trip(id: Seq<char>, path: Seq<char>)
    ensures
        id.len() > 0 && !id.contains('/') ==> path_room_id(rooms_prefix() + id) == Some(id),
        path_room_id(path) matches Some(named) ==> path == rooms_prefix() + named && named.len() > 0
            && !named.contains('/'),
{
    let p = rooms_prefix() + id;
    assert(rooms_prefix().is_prefix_of(p)) by {
        assert(p.take(rooms_prefix().len() as int) =~= rooms_prefix());
    }
    assert(p.skip(rooms_prefix().len() as int) =~= id);
    if rooms_prefix().is_prefix_of(path) {
        assert(path =~= rooms_prefix() + path.skip(rooms_prefix().len() as int)) by {
            assert(path.take(rooms_prefix().len() as int) =~= rooms_prefix());
        }
    }
}

/// A frame's header reads back as its payload's length, whenever that length
/// fits in 32 bits, and the frame's body is the payload.
pub proof fn lemma_frame_round_trip(payload: Seq<u8>)
    requires
        payload.len() < 0x1_0000_0000,
    ensures
        be_u32_value((be_u32_bytes(frame_length(payload.len())) + payload).take(4)) == payload.len(),
        (be_u32_bytes(frame_length(payload.len())) + payload).skip(4) == payload,
{
    let n = frame_length(payload.len());
    let f = be_u32_bytes(n) + payload;
    assert(f.take(4) =~= be_u32_bytes(n));
    assert(f.skip(4) =~= payload);
    assert(n == payload.len());
    assert(be_u32_value(be_u32_bytes(n)) == n) by (nonlinear_arith)
        requires
            be_u32_bytes(n) =~= seq![
                (n / 0x100_0000) as u8,
                ((n / 0x1_0000) % 0x100) as u8,
                ((n / 0x100) % 0x100) as u8,
                (n % 0x100) as u8,
            ],
    {
    }
}

/// A connection reader only ever queues cursor updates, each carrying its
/// session's user id; so the cursor writer of that session skips it, and the
/// cursor writer of every other session sends it.
pub proof fn lemma_queued_cursor_skips_only_sender(input: ConnectionInput, sender: Seq<char>, reader: Seq<char>)
    ensures
        queued_cursor(input, sender) matches Some(c) ==> c.user_id == sender
            && (is_own_cursor_of(c, reader) <==> reader == sender),
{
}

/// A cursor actor relays, in order and unchanged, the cursor updates that
/// come before the first command that is not one, and nothing after it.
pub proof fn lemma_relayed_cursors_prefix(commands: Seq<RoomCommand>, k: int)
    requires
        0 <= k <= commands.len(),
        forall|i: int| 0 <= i < k ==> #[trigger] commands[i] is BroadcastCursor,
        k == commands.len() || !(commands[k] is BroadcastCursor),
    ensures
        relayed_cursors(commands) == Seq::new(k as nat, |i: int| commands[i]->cursor),
    decreases k,
{
    if k == 0 {
        if commands.len() > 0 {
            assert(cursor_relay(commands[0]) is None);
        }
        assert(relayed_cursors(commands) =~= Seq::new(0 as nat, |i: int| commands[i]->cursor));
    } else {
        let rest = commands.drop_first();
        assert forall|i: int| 0 <= i < k - 1 implies #[trigger] rest[i] is BroadcastCursor by {
            assert(rest[i] == commands[i + 1]);
        }
        if k < commands.len() {
            assert(rest[k - 1] == commands[k]);
        }
        lemma_relayed_cursors_prefix(rest, k - 1);
        assert(commands[0] is BroadcastCursor);
        assert(relayed_cursors(commands) =~= Seq::new(k as nat, |i: int| commands[i]->cursor));
    }
}

/// A relayed cursor keeps the client's position bit for bit, and carries
/// the session's user id whatever id the client wrote; stamping again for the
/// same session changes nothing.
pub proof fn lemma_stamp_keeps_position(cursor: CursorUpdateView, user_id: Seq<char>, other: Seq<char>)
    ensures
        stamped_cursor(cursor, user_id).x_bits == cursor.x_bits,
        stamped_cursor(cursor, user_id).y_bits == cursor.y_bits,
        stamped_cursor(cursor, user_id).user_id == user_id,
        stamped_cursor(stamped_cursor(cursor, other), user_id) == stamped_cursor(cursor, user_id),
        cursor.user_id == user_id ==> stamped_cursor(cursor, user_id) == cursor,
{
}

/// Every non-empty user id a client asks for is kept as it is; an empty or
/// missing one is not, and the session then gets a generated id.
pub proof fn lemma_requested_id_kept(metadata: JoinMetadataView)
    ensures
        match metadata.user_id {
            Some(id) => if id.len() > 0 {
                requested_user_id_of(metadata) == Some(id)
            } else {
                requested_user_id_of(metadata) is None
            },
            None => requested_user_id_of(metadata) is None,
        },
        requested_user_id_of(metadata) matches Some(id) ==> metadata.user_id == Some(id) && id.len() > 0,
{
}

} // verus!
