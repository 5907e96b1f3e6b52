//! The messages a room exchanges with its clients.

use std::collections::HashMap;
use vstd::prelude::*;

verus! {

/// A canvas element: its id, its version, and whatever other properties the
/// client sent with it.
#[derive(Debug)]
pub struct Element {
    pub id: String,
    pub version: u32,
    pub extra_properties: HashMap<String, rmpv::Value>,
}

/// What a contract sees of an element.
pub struct ElementView {
    pub id: Seq<char>,
    pub version: u32,
    pub extra_properties: Map<String, rmpv::Value>,
}

impl View for Element {
    type V = ElementView;

    open spec fn view(&self) -> ElementView {
        ElementView { id: self.id@, version: self.version, extra_properties: self.extra_properties@ }
    }
}

impl Element {
    /// The element's id.
    pub fn id(&self) -> (r: &str)
        ensures
            r@ == self.id@,
    {
        self.id.as_str()
    }
}

impl Clone for Element {
    fn clone(&self) -> (r: Self)
        ensures
            r@ == self@,
    {
        Element {
            id: self.id.clone(),
            version: self.version,
            extra_properties: self.extra_properties.clone(),
        }
    }
}


/// A cursor position sent by a client. The coordinates are single-precision
/// numbers, held here by their IEEE 754 bit patterns and handed on unchanged.
#[derive(Debug)]
pub struct CursorUpdate {
    pub user_id: String,
    pub x_bits: u32,
    pub y_bits: u32,
}

/// What a contract sees of a cursor update.
pub struct CursorUpdateView {
    pub user_id: Seq<char>,
    pub x_bits: u32,
    pub y_bits: u32,
}

impl View for CursorUpdate {
    type V = CursorUpdateView;

    open spec fn view(&self) -> CursorUpdateView {
        CursorUpdateView { user_id: self.user_id@, x_bits: self.x_bits, y_bits: self.y_bits }
    }
}

impl Clone for CursorUpdate {
    fn clone(&self) -> (r: Self)
        ensures
            r@ == self@,
    {
        CursorUpdate { user_id: self.user_id.clone(), x_bits: self.x_bits, y_bits: self.y_bits }
    }
}

/// The canvas as a joining user first sees it.
#[derive(Debug)]
pub struct RoomSnapshot {
    pub user_id: String,
    pub elements: Vec<Element>,
}

/// What a contract sees of a snapshot.
pub struct RoomSnapshotView {
    pub user_id: Seq<char>,
    pub elements: Seq<ElementView>,
}

/// The views of a sequence of elements.
pub open spec fn element_views(elements: Seq<Element>) -> Seq<ElementView> {
    elements.map_values(|e: Element| e@)
}

impl View for RoomSnapshot {
    type V = RoomSnapshotView;

    open spec fn view(&self) -> RoomSnapshotView {
        RoomSnapshotView { user_id: self.user_id@, elements: element_views(self.elements@) }
    }
}

/// What a room answers a user whose join it accepts.
#[derive(Debug)]
pub struct RoomJoinResponse {
    pub snapshot: RoomSnapshot,
    pub existing_members: Vec<RoomEvent>,
}

/// What a contract sees of a join response.
pub struct RoomJoinResponseView {
    pub snapshot: RoomSnapshotView,
    pub existing_members: Seq<RoomEventView>,
}

/// The views of a sequence of events.
pub open spec fn event_views(events: Seq<RoomEvent>) -> Seq<RoomEventView> {
    events.map_values(|e: RoomEvent| e@)
}

impl View for RoomJoinResponse {
    type V = RoomJoinResponseView;

    open spec fn view(&self) -> RoomJoinResponseView {
        RoomJoinResponseView {
            snapshot: self.snapshot@,
            existing_members: event_views(self.existing_members@),
        }
    }
}

/// What a client announces about itself when it joins a room.
#[derive(Debug)]
pub struct JoinMetadata {
    pub user_id: Option<String>,
    pub user_name: String,
    pub extra_properties: HashMap<String, rmpv::Value>,
}

/// What a contract sees of join metadata.
pub struct JoinMetadataView {
    pub user_id: Option<Seq<char>>,
    pub user_name: Seq<char>,
    pub extra_properties: Map<String, rmpv::Value>,
}

/// The view of an optional string.
pub open spec fn opt_string_view(s: Option<String>) -> Option<Seq<char>> {
    match s {
        Some(t) => Some(t@),
        None => None,
    }
}

impl View for JoinMetadata {
    type V = JoinMetadataView;

    open spec fn view(&self) -> JoinMetadataView {
        JoinMetadataView {
            user_id: opt_string_view(self.user_id),
            user_name: self.user_name@,
            extra_properties: self.extra_properties@,
        }
    }
}

impl Clone for JoinMetadata {
    fn clone(&self) -> (r: Self)
        ensures
            r@ == self@,
    {
        let user_id = match &self.user_id {
            Some(id) => Some(id.clone()),
            None => None,
        };
        JoinMetadata {
            user_id,
            user_name: self.user_name.clone(),
            extra_properties: self.extra_properties.clone(),
        }
    }
}

impl Default for JoinMetadata {
    fn default() -> (r: Self)
        ensures
            r@.user_id == None::<Seq<char>>,
            r@.user_name == Seq::<char>::empty(),
            r@.extra_properties == Map::<String, rmpv::Value>::empty(),
    {
        JoinMetadata { user_id: None, user_name: String::new(), extra_properties: HashMap::new() }
    }
}

/// A request to a room.
#[derive(Debug)]
pub enum RoomCommand {
    Join {
        user_id: String,
        metadata: JoinMetadata,
        response_tx: tokio::sync::oneshot::Sender<Result<RoomJoinResponse, String>>,
    },
    UpdateElement { user_id: String, element: Element },
    Leave { user_id: String, metadata: JoinMetadata },
    BroadcastCursor { cursor: CursorUpdate },
}

/// Something that happened in a room, as it is told to the room's clients.
#[derive(Debug)]
pub enum RoomEvent {
    UserJoined {
        user_id: String,
        user_name: String,
        extra_properties: HashMap<String, rmpv::Value>,
    },
    UserLeft {
        user_id: String,
        user_name: String,
        extra_properties: HashMap<String, rmpv::Value>,
    },
    ElementUpdated { user_id: String, element: Element },
}

/// What a contract sees of a room event.
pub enum RoomEventView {
    UserJoined {
        user_id: Seq<char>,
        user_name: Seq<char>,
        extra_properties: Map<String, rmpv::Value>,
    },
    UserLeft {
        user_id: Seq<char>,
        user_name: Seq<char>,
        extra_properties: Map<String, rmpv::Value>,
    },
    ElementUpdated { user_id: Seq<char>, element: ElementView },
}

impl View for RoomEvent {
    type V = RoomEventView;

    open spec fn view(&self) -> RoomEventView {
        match self {
            RoomEvent::UserJoined { user_id, user_name, extra_properties } => RoomEventView::UserJoined {
                user_id: user_id@,
                user_name: user_name@,
                extra_properties: extra_properties@,
            },
            RoomEvent::UserLeft { user_id, user_name, extra_properties } => RoomEventView::UserLeft {
                user_id: user_id@,
                user_name: user_name@,
                extra_properties: extra_properties@,
            },
            RoomEvent::ElementUpdated { user_id, element } => RoomEventView::ElementUpdated {
                user_id: user_id@,
                element: element@,
            },
        }
    }
}

impl RoomEventView {
    /// The user an event is about.
    pub open spec fn user_id(self) -> Seq<char> {
        match self {
            RoomEventView::UserJoined { user_id, .. } => user_id,
            RoomEventView::UserLeft { user_id, .. } => user_id,
            RoomEventView::ElementUpdated { user_id, .. } => user_id,
        }
    }
}

impl Clone for RoomEvent {
    fn clone(&self) -> (r: Self)
        ensures
            r@ == self@,
    {
        match self {
            RoomEvent::UserJoined { user_id, user_name, extra_properties } => RoomEvent::UserJoined {
                user_id: user_id.clone(),
                user_name: user_name.clone(),
                extra_properties: extra_properties.clone(),
            },
            RoomEvent::UserLeft { user_id, user_name, extra_properties } => RoomEvent::UserLeft {
                user_id: user_id.clone(),
                user_name: user_name.clone(),
                extra_properties: extra_properties.clone(),
            },
            RoomEvent::ElementUpdated { user_id, element } => RoomEvent::ElementUpdated {
                user_id: user_id.clone(),
                element: element.clone(),
            },
        }
    }
}

} // verus!
