//! The state a room keeps, and how it answers each command.

use vstd::prelude::*;
use vstd::string::*;

use crate::types::{
    element_views, event_views, Element, ElementView, JoinMetadata,
    JoinMetadataView, RoomCommand, RoomEvent, RoomEventView, RoomJoinResponse,
    RoomJoinResponseView, RoomSnapshot, RoomSnapshotView,
};

verus! {

/// A user present in a room, with the metadata it joined with.
pub struct Member {
    pub user_id: String,
    pub metadata: JoinMetadata,
}

/// What a contract sees of a member.
pub struct MemberView {
    pub user_id: Seq<char>,
    pub metadata: JoinMetadataView,
}

impl View for Member {
    type V = MemberView;

    open spec fn view(&self) -> MemberView {
        MemberView { user_id: self.user_id@, metadata: self.metadata@ }
    }
}

/// The views of a sequence of members.
pub open spec fn member_views(members: Seq<Member>) -> Seq<MemberView> {
    members.map_values(|m: Member| m@)
}

/// What a contract sees of a room: its canvas and its members, each in the
/// order in which it first arrived.
#[verifier::ext_equal]
pub struct RoomStateView {
    pub canvas: Seq<ElementView>,
    pub members: Seq<MemberView>,
}

/// The position of the element with the given id, if the canvas holds one.
pub open spec fn element_position(canvas: Seq<ElementView>, id: Seq<char>) -> Option<int> {
    if exists|i: int| 0 <= i < canvas.len() && canvas[i].id == id {
        Some(choose|i: int| 0 <= i < canvas.len() && canvas[i].id == id)
    } else {
        None
    }
}

/// The position of the member with the given id, if the room holds one.
pub open spec fn member_position(members: Seq<MemberView>, id: Seq<char>) -> Option<int> {
    if exists|i: int| 0 <= i < members.len() && members[i].user_id == id {
        Some(choose|i: int| 0 <= i < members.len() && members[i].user_id == id)
    } else {
        None
    }
}

/// No two elements of the canvas share an id.
pub open spec fn distinct_element_ids(canvas: Seq<ElementView>) -> bool {
    forall|i: int, j: int| 0 <= i < j < canvas.len() ==> canvas[i].id != canvas[j].id
}

/// No two members share an id.
pub open spec fn distinct_member_ids(members: Seq<MemberView>) -> bool {
    forall|i: int, j: int| 0 <= i < j < members.len() ==> members[i].user_id != members[j].user_id
}

impl RoomStateView {
    /// Each element id and each member id occurs at most once.
    pub open spec fn wf(self) -> bool {
        distinct_element_ids(self.canvas) && distinct_member_ids(self.members)
    }

    /// Whether the user has an active session in the room.
    pub open spec fn has_member(self, user_id: Seq<char>) -> bool {
        member_position(self.members, user_id) is Some
    }
}

/// The event that tells others that a user joined.
pub open spec fn joined_event(user_id: Seq<char>, metadata: JoinMetadataView) -> RoomEventView {
    RoomEventView::UserJoined {
        user_id,
        user_name: metadata.user_name,
        extra_properties: metadata.extra_properties,
    }
}

/// The event that tells others that a user left.
pub open spec fn left_event(user_id: Seq<char>, metadata: JoinMetadataView) -> RoomEventView {
    RoomEventView::UserLeft {
        user_id,
        user_name: metadata.user_name,
        extra_properties: metadata.extra_properties,
    }
}

/// One `UserJoined` event for each member, in the room's order.
pub open spec fn member_events(members: Seq<MemberView>) -> Seq<RoomEventView> {
    members.map_values(|m: MemberView| joined_event(m.user_id, m.metadata))
}

/// The refusal a user gets when it already has a session in the room.
pub open spec fn already_joined_message(user_id: Seq<char>) -> Seq<char> {
    "user "@ + user_id + " already has an active session"@
}

/// What a room answers, and what it tells its clients, after one command.
pub struct RoomStepView {
    pub next: RoomStateView,
    pub reply: Option<Result<RoomJoinResponseView, Seq<char>>>,
    pub event: Option<RoomEventView>,
}

/// A join: refused when the user is already a member; otherwise the user is
/// told the canvas and the members before it, and the others that it joined.
pub open spec fn join_step(s: RoomStateView, user_id: Seq<char>, metadata: JoinMetadataView) -> RoomStepView {
    if s.has_member(user_id) {
        RoomStepView { next: s, reply: Some(Err(already_joined_message(user_id))), event: None }
    } else {
        RoomStepView {
            next: RoomStateView {
                canvas: s.canvas,
                members: s.members.push(MemberView { user_id, metadata }),
            },
            reply: Some(Ok(RoomJoinResponseView {
                snapshot: RoomSnapshotView { user_id, elements: s.canvas },
                existing_members: member_events(s.members),
            })),
            event: Some(joined_event(user_id, metadata)),
        }
    }
}

/// The canvas after an element is written: it takes the place of the element
/// with its id, or comes last when there is none.
pub open spec fn canvas_after_update(canvas: Seq<ElementView>, element: ElementView) -> Seq<ElementView> {
    match element_position(canvas, element.id) {
        Some(i) => canvas.update(i, element),
        None => canvas.push(element),
    }
}

/// An element update: the canvas keeps the new element, and everyone is told.
pub open spec fn update_step(s: RoomStateView, user_id: Seq<char>, element: ElementView) -> RoomStepView {
    RoomStepView {
        next: RoomStateView { canvas: canvas_after_update(s.canvas, element), members: s.members },
        reply: None,
        event: Some(RoomEventView::ElementUpdated { user_id, element }),
    }
}

/// The members after a user leaves.
pub open spec fn members_after_leave(members: Seq<MemberView>, user_id: Seq<char>) -> Seq<MemberView> {
    match member_position(members, user_id) {
        Some(i) => members.remove(i),
        None => members,
    }
}

/// A departure: the user stops being a member, and everyone is told, with
/// the metadata that the departure carries.
pub open spec fn leave_step(s: RoomStateView, user_id: Seq<char>, metadata: JoinMetadataView) -> RoomStepView {
    RoomStepView {
        next: RoomStateView { canvas: s.canvas, members: members_after_leave(s.members, user_id) },
        reply: None,
        event: Some(left_event(user_id, metadata)),
    }
}

/// A cursor command: the room's own actor ignores it.
pub open spec fn cursor_step(s: RoomStateView) -> RoomStepView {
    RoomStepView { next: s, reply: None, event: None }
}

/// What a room does with one command.
pub open spec fn room_step(s: RoomStateView, command: RoomCommand) -> RoomStepView {
    match command {
        RoomCommand::Join { user_id, metadata, .. } => join_step(s, user_id@, metadata@),
        RoomCommand::UpdateElement { user_id, element } => update_step(s, user_id@, element@),
        RoomCommand::Leave { user_id, metadata } => leave_step(s, user_id@, metadata@),
        RoomCommand::BroadcastCursor { .. } => cursor_step(s),
    }
}

/// The view of the answer to a join.
pub open spec fn join_result_view(r: Result<RoomJoinResponse, String>) -> Result<RoomJoinResponseView, Seq<char>> {
    match r {
        Ok(resp) => Ok(resp@),
        Err(msg) => Err(msg@),
    }
}

/// What a room hands back after a command: the answer to a join, with the
/// channel it goes to, and the event to tell all clients.
pub struct RoomOutcome {
    pub reply: Option<(tokio::sync::oneshot::Sender<Result<RoomJoinResponse, String>>, Result<RoomJoinResponse, String>)>,
    pub event: Option<RoomEvent>,
}

impl RoomOutcome {
    /// The answer, without its channel.
    pub open spec fn reply_view(self) -> Option<Result<RoomJoinResponseView, Seq<char>>> {
        match self.reply {
            Some(r) => Some(join_result_view(r.1)),
            None => None,
        }
    }

    /// The event.
    pub open spec fn event_view(self) -> Option<RoomEventView> {
        match self.event {
            Some(e) => Some(e@),
            None => None,
        }
    }
}

/// The canvas and the members of one room.
pub struct RoomState {
    canvas_state: Vec<Element>,
    members: Vec<Member>,
}

impl View for RoomState {
    type V = RoomStateView;

    closed spec fn view(&self) -> RoomStateView {
        RoomStateView { canvas: element_views(self.canvas_state@), members: member_views(self.members@) }
    }
}

impl RoomState {
    /// Each element id and each member id occurs at most once.
    #[verifier::type_invariant]
    closed spec fn ids_distinct(self) -> bool {
        self@.wf()
    }

    /// An empty room.
    pub fn new() -> (r: Self)
        ensures
            r@.canvas == Seq::<ElementView>::empty(),
            r@.members == Seq::<MemberView>::empty(),
            r@.wf(),
    {
        let r = RoomState { canvas_state: Vec::new(), members: Vec::new() };
        assert(r@.canvas =~= Seq::<ElementView>::empty());
        assert(r@.members =~= Seq::<MemberView>::empty());
        r
    }

    fn find_member(&self, user_id: &String) -> (r: Option<usize>)
        ensures
            r matches Some(i) ==> member_position(self@.members, user_id@) == Some(i as int),
            r is None ==> member_position(self@.members, user_id@) is None,
    {
        proof {
            use_type_invariant(self);
        }
        let mut i: usize = 0;
        while i < self.members.len()
            invariant
                i <= self.members.len(),
                self@.wf(),
                forall|j: int| 0 <= j < i ==> self@.members[j].user_id != user_id@,
            decreases self.members.len() - i,
        {
            if self.members[i].user_id == *user_id {
                assert(self@.members[i as int].user_id == user_id@);
                return Some(i);
            }
            i = i + 1;
        }
        None
    }

    fn find_element(&self, id: &String) -> (r: Option<usize>)
        ensures
            r matches Some(i) ==> element_position(self@.canvas, id@) == Some(i as int),
            r is None ==> element_position(self@.canvas, id@) is None,
    {
        proof {
            use_type_invariant(self);
        }
        let mut i: usize = 0;
        while i < self.canvas_state.len()
            invariant
                i <= self.canvas_state.len(),
                self@.wf(),
                forall|j: int| 0 <= j < i ==> self@.canvas[j].id != id@,
            decreases self.canvas_state.len() - i,
        {
            if self.canvas_state[i].id == *id {
                assert(self@.canvas[i as int].id == id@);
                return Some(i);
            }
            i = i + 1;
        }
        None
    }

    fn member_events_now(&self) -> (r: Vec<RoomEvent>)
        ensures
            event_views(r@) == member_events(self@.members),
            r@.len() == self@.members.len(),
            forall|i: int|
                0 <= i < r@.len() ==> #[trigger] r@[i]@ == (RoomEventView::UserJoined {
                    user_id: self@.members[i].user_id,
                    user_name: self@.members[i].metadata.user_name,
                    extra_properties: self@.members[i].metadata.extra_properties,
                }),
    {
        let mut events: Vec<RoomEvent> = Vec::new();
        let mut i: usize = 0;
        while i < self.members.len()
            invariant
                i <= self.members.len(),
                events.len() == i,
                event_views(events@) =~= member_events(self@.members).take(i as int),
                forall|j: int|
                    0 <= j < i ==> #[trigger] events@[j]@ == (RoomEventView::UserJoined {
                        user_id: self@.members[j].user_id,
                        user_name: self@.members[j].metadata.user_name,
                        extra_properties: self@.members[j].metadata.extra_properties,
                    }),
            decreases self.members.len() - i,
        {
            let m = &self.members[i];
            events.push(RoomEvent::UserJoined {
                user_id: m.user_id.clone(),
                user_name: m.metadata.user_name.clone(),
                extra_properties: m.metadata.extra_properties.clone(),
            });
            assert(self@.members[i as int] == self.members@[i as int]@);
            assert(events@[i as int]@ == member_events(self@.members)[i as int]);
            i = i + 1;
        }
        events
    }

    fn canvas_now(&self) -> (r: Vec<Element>)
        ensures
            element_views(r@) == self@.canvas,
    {
        let mut elements: Vec<Element> = Vec::new();
        let mut i: usize = 0;
        while i < self.canvas_state.len()
            invariant
                i <= self.canvas_state.len(),
                elements.len() == i,
                element_views(elements@) =~= self@.canvas.take(i as int),
            decreases self.canvas_state.len() - i,
        {
            elements.push(self.canvas_state[i].clone());
            assert(self@.canvas[i as int] == self.canvas_state@[i as int]@);
            assert(elements@[i as int]@ == self@.canvas[i as int]);
            i = i + 1;
        }
        elements
    }

    fn join(
        &mut self,
        user_id: String,
        metadata: JoinMetadata,
        response_tx: tokio::sync::oneshot::Sender<Result<RoomJoinResponse, String>>,
    ) -> (out: RoomOutcome)
        requires
            old(self)@.wf(),
        ensures
            final(self)@.wf(),
            final(self)@ == join_step(old(self)@, user_id@, metadata@).next,
            out.reply_view() == join_step(old(self)@, user_id@, metadata@).reply,
            out.event_view() == join_step(old(self)@, user_id@, metadata@).event,
            out.reply matches Some(r) && r.0 == response_tx,
            out.reply matches Some((_, Ok(resp))) ==> {
                &&& !old(self)@.has_member(user_id@)
                &&& resp.existing_members@.len() == old(self)@.members.len()
                &&& forall|i: int|
                    0 <= i < resp.existing_members@.len() ==> #[trigger] resp.existing_members@[i]@
                        == (RoomEventView::UserJoined {
                        user_id: old(self)@.members[i].user_id,
                        user_name: old(self)@.members[i].metadata.user_name,
                        extra_properties: old(self)@.members[i].metadata.extra_properties,
                    })
            },
    {
        match self.find_member(&user_id) {
            Some(_) => {
                let mut msg = String::new();
                msg.append("user ");
                msg.append(user_id.as_str());
                msg.append(" already has an active session");
                RoomOutcome { reply: Some((response_tx, Err(msg))), event: None }
            },
            None => {
                let existing_members = self.member_events_now();
                let elements = self.canvas_now();
                let snapshot = RoomSnapshot { user_id: user_id.clone(), elements };
                let ghost before = self@;
                let member = Member { user_id: user_id.clone(), metadata: metadata.clone() };
                let mut members: Vec<Member> = Vec::new();
                std::mem::swap(&mut members, &mut self.members);
                members.push(member);
                assert(member_views(members@) =~= before.members.push(MemberView { user_id: user_id@, metadata: metadata@ }));
                self.members = members;
                assert(self@.members =~= before.members.push(MemberView { user_id: user_id@, metadata: metadata@ }));
                assert(self@.canvas =~= before.canvas);
                let event = RoomEvent::UserJoined {
                    user_id,
                    user_name: metadata.user_name,
                    extra_properties: metadata.extra_properties,
                };
                let response = RoomJoinResponse { snapshot, existing_members };
                RoomOutcome { reply: Some((response_tx, Ok(response))), event: Some(event) }
            },
        }
    }

    fn update_element(&mut self, user_id: String, element: Element) -> (out: RoomOutcome)
        requires
            old(self)@.wf(),
        ensures
            final(self)@.wf(),
            final(self)@ == update_step(old(self)@, user_id@, element@).next,
            out.reply is None,
            out.event_view() == update_step(old(self)@, user_id@, element@).event,
            out.event matches Some(RoomEvent::ElementUpdated { user_id: u, element: e }) && u@ == user_id@
                && e@ == element@,
    {
        let ghost before = self@;
        let position = self.find_element(&element.id);
        let mut canvas: Vec<Element> = Vec::new();
        std::mem::swap(&mut canvas, &mut self.canvas_state);
        match position {
            Some(i) => {
                canvas.set(i, element.clone());
                assert(element_views(canvas@) =~= before.canvas.update(i as int, element@));
            },
            None => {
                canvas.push(element.clone());
                assert(element_views(canvas@) =~= before.canvas.push(element@));
            },
        }
        proof {
            lemma_update_keeps_ids_distinct(before.canvas, element@);
        }
        self.canvas_state = canvas;
        assert(self@.members =~= before.members);
        RoomOutcome { reply: None, event: Some(RoomEvent::ElementUpdated { user_id, element }) }
    }

    fn leave(&mut self, user_id: String, metadata: JoinMetadata) -> (out: RoomOutcome)
        requires
            old(self)@.wf(),
        ensures
            final(self)@.wf(),
            final(self)@ == leave_step(old(self)@, user_id@, metadata@).next,
            out.reply is None,
            out.event_view() == leave_step(old(self)@, user_id@, metadata@).event,
    {
        let ghost before = self@;
        match self.find_member(&user_id) {
            Some(i) => {
                let mut members: Vec<Member> = Vec::new();
                std::mem::swap(&mut members, &mut self.members);
                members.remove(i);
                assert(member_views(members@) =~= before.members.remove(i as int));
                proof {
                    lemma_remove_keeps_members_distinct(before.members, i as int);
                }
                self.members = members;
                assert(self@.members =~= before.members.remove(i as int));
            },
            None => {},
        }
        assert(self@.canvas =~= before.canvas);
        let event = RoomEvent::UserLeft {
            user_id,
            user_name: metadata.user_name,
            extra_properties: metadata.extra_properties,
        };
        RoomOutcome { reply: None, event: Some(event) }
    }

    /// Answers one command, as the room's actor does: a join is refused when
    /// the user already has a session and otherwise answered with the canvas
    /// and the members before it; an element update replaces the element with
    /// the same id or adds it; a departure removes the member; every change is
    /// told to all clients; a cursor command changes nothing.
    pub fn handle(&mut self, command: RoomCommand) -> (out: RoomOutcome)
        ensures
            final(self)@.wf(),
            final(self)@ == room_step(old(self)@, command).next,
            out.reply_view() == room_step(old(self)@, command).reply,
            out.event_view() == room_step(old(self)@, command).event,
            match command {
                RoomCommand::Join { response_tx, .. } => out.reply matches Some(r) && r.0 == response_tx,
                _ => out.reply is None,
            },
            match command {
                RoomCommand::UpdateElement { user_id, element } => out.event matches Some(
                    RoomEvent::ElementUpdated { user_id: u, element: e },
                ) && u@ == user_id@ && e@ == element@,
                RoomCommand::Join { user_id, .. } => out.reply matches Some((_, Ok(resp))) ==> {
                    &&& !old(self)@.has_member(user_id@)
                    &&& resp.existing_members@.len() == old(self)@.members.len()
                    &&& forall|i: int|
                        0 <= i < resp.existing_members@.len() ==> #[trigger] resp.existing_members@[i]@
                            == (RoomEventView::UserJoined {
                            user_id: old(self)@.members[i].user_id,
                            user_name: old(self)@.members[i].metadata.user_name,
                            extra_properties: old(self)@.members[i].metadata.extra_properties,
                        })
                },
                _ => true,
            },
    {
        proof {
            use_type_invariant(&*self);
        }
        match command {
            RoomCommand::Join { user_id, metadata, response_tx } => self.join(user_id, metadata, response_tx),
            RoomCommand::UpdateElement { user_id, element } => self.update_element(user_id, element),
            RoomCommand::Leave { user_id, metadata } => self.leave(user_id, metadata),
            RoomCommand::BroadcastCursor { .. } => RoomOutcome { reply: None, event: None },
        }
    }
}

/// A user whose join was accepted is refused if it joins again before it
/// leaves, with the "already has an active session" message, and the room
/// stays as it was.
pub proof fn lemma_second_join_refused(
    s: RoomStateView,
    user_id: Seq<char>,
    first: JoinMetadataView,
    second: JoinMetadataView,
)
    requires
        s.wf(),
        !s.has_member(user_id),
    ensures
        join_step(join_step(s, user_id, first).next, user_id, second).reply
            == Some(Err::<RoomJoinResponseView, Seq<char>>(already_joined_message(user_id))),
        join_step(join_step(s, user_id, first).next, user_id, second).next
            == join_step(s, user_id, first).next,
        join_step(join_step(s, user_id, first).next, user_id, second).event is None,
{
    let t = join_step(s, user_id, first).next;
    let last = t.members.len() - 1;
    assert(t.members[last].user_id == user_id);
}

/// After a user leaves, it can join again.
pub proof fn lemma_rejoin_after_leave(
    s: RoomStateView,
    user_id: Seq<char>,
    leaving: JoinMetadataView,
    joining: JoinMetadataView,
)
    requires
        s.wf(),
    ensures
        !leave_step(s, user_id, leaving).next.has_member(user_id),
        join_step(leave_step(s, user_id, leaving).next, user_id, joining).reply matches Some(Ok(_)),
{
    let t = leave_step(s, user_id, leaving).next;
    match member_position(s.members, user_id) {
        Some(i) => {
            assert forall|k: int| 0 <= k < t.members.len() implies t.members[k].user_id != user_id by {
                if k < i {
                    assert(s.members[k].user_id != s.members[i].user_id);
                } else {
                    assert(s.members[k + 1].user_id != s.members[i].user_id);
                }
            }
        },
        None => {},
    }
}

/// A user that joins after an element was written is shown that element in
/// its snapshot, under the element's id, with no second element of that id.
pub proof fn lemma_snapshot_shows_update(
    s: RoomStateView,
    writer: Seq<char>,
    element: ElementView,
    joiner: Seq<char>,
    metadata: JoinMetadataView,
)
    requires
        s.wf(),
        !update_step(s, writer, element).next.has_member(joiner),
    ensures
        join_step(update_step(s, writer, element).next, joiner, metadata).reply matches Some(Ok(resp))
            && element_position(resp.snapshot.elements, element.id) matches Some(i)
            && resp.snapshot.elements[i] == element
            && distinct_element_ids(resp.snapshot.elements),
{
    let c = canvas_after_update(s.canvas, element);
    match element_position(s.canvas, element.id) {
        Some(i) => {
            assert(c[i] == element);
        },
        None => {
            assert(c[c.len() - 1] == element);
        },
    }
    lemma_update_keeps_ids_distinct(s.canvas, element);
}

/// Writing an element keeps the canvas free of repeated ids, and every other
/// element as it was.
pub proof fn lemma_update_keeps_ids_distinct(canvas: Seq<ElementView>, element: ElementView)
    requires
        distinct_element_ids(canvas),
    ensures
        distinct_element_ids(canvas_after_update(canvas, element)),
        forall|i: int|
            0 <= i < canvas.len() && canvas[i].id != element.id ==> canvas_after_update(canvas, element)[i]
                == canvas[i],
{
}

/// Writing the same element twice leaves the room as writing it once.
pub proof fn lemma_update_idempotent(s: RoomStateView, writer: Seq<char>, element: ElementView)
    requires
        s.wf(),
    ensures
        update_step(update_step(s, writer, element).next, writer, element).next
            == update_step(s, writer, element).next,
{
    let c = canvas_after_update(s.canvas, element);
    lemma_update_keeps_ids_distinct(s.canvas, element);
    let p = match element_position(s.canvas, element.id) {
        Some(i) => i,
        None => c.len() - 1,
    };
    assert(c[p].id == element.id);
    assert(element_position(c, element.id) == Some(p));
    assert(canvas_after_update(c, element) =~= c);
}

/// Every command keeps each element id and each member id unique.
pub proof fn lemma_step_keeps_wf(s: RoomStateView, command: RoomCommand)
    requires
        s.wf(),
    ensures
        room_step(s, command).next.wf(),
{
    match command {
        RoomCommand::Join { user_id, metadata, .. } => {},
        RoomCommand::UpdateElement { user_id, element } => {
            lemma_update_keeps_ids_distinct(s.canvas, element@);
        },
        RoomCommand::Leave { user_id, metadata } => {
            match member_position(s.members, user_id@) {
                Some(i) => {
                    lemma_remove_keeps_members_distinct(s.members, i);
                },
                None => {},
            }
        },
        RoomCommand::BroadcastCursor { .. } => {},
    }
}

/// Joins and departures leave the canvas alone; element writes leave the
/// members alone; cursor commands change nothing and answer nothing.
pub proof fn lemma_step_frames(s: RoomStateView, command: RoomCommand)
    ensures
        match command {
            RoomCommand::Join { .. } => room_step(s, command).next.canvas == s.canvas,
            RoomCommand::Leave { .. } => room_step(s, command).next.canvas == s.canvas,
            RoomCommand::UpdateElement { .. } => room_step(s, command).next.members == s.members,
            RoomCommand::BroadcastCursor { .. } => room_step(s, command) == cursor_step(s)
                && room_step(s, command).next == s,
        },
{
}

/// A joining user is told of every other member, in order, and never of
/// itself.
pub proof fn lemma_join_lists_others(s: RoomStateView, user_id: Seq<char>, metadata: JoinMetadataView)
    requires
        s.wf(),
        !s.has_member(user_id),
    ensures
        join_step(s, user_id, metadata).reply matches Some(Ok(resp)) && resp.existing_members.len()
            == s.members.len() && forall|i: int|
            0 <= i < resp.existing_members.len() ==> resp.existing_members[i].user_id()
                == s.members[i].user_id && resp.existing_members[i].user_id() != user_id,
{
}

/// Removing a member keeps the other member ids distinct.
pub proof fn lemma_remove_keeps_members_distinct(members: Seq<MemberView>, i: int)
    requires
        distinct_member_ids(members),
        0 <= i < members.len(),
    ensures
        distinct_member_ids(members.remove(i)),
{
    let t = members.remove(i);
    assert forall|a: int, b: int| 0 <= a < b < t.len() implies t[a].user_id != t[b].user_id by {
        let a2 = if a < i { a } else { a + 1 };
        let b2 = if b < i { b } else { b + 1 };
        assert(t[a] == members[a2]);
        assert(t[b] == members[b2]);
    }
}

/// The room that `RoomState::new` makes.
pub open spec fn empty_room() -> RoomStateView {
    RoomStateView { canvas: Seq::empty(), members: Seq::empty() }
}

/// The room after a sequence of commands, each handled in turn.
pub open spec fn room_after(s: RoomStateView, commands: Seq<RoomCommand>) -> RoomStateView
    decreases commands.len(),
{
    if commands.len() == 0 {
        s
    } else {
        room_step(room_after(s, commands.drop_last()), commands.last()).next
    }
}

/// Whether a command is a join by the given user.
pub open spec fn joins(command: RoomCommand, user_id: Seq<char>) -> bool {
    command matches RoomCommand::Join { user_id: u, .. } && u@ == user_id
}

/// Whether a command is a departure of the given user.
pub open spec fn leaves(command: RoomCommand, user_id: Seq<char>) -> bool {
    command matches RoomCommand::Leave { user_id: u, .. } && u@ == user_id
}

/// Whether, in a sequence of commands handled from an empty room, the user's
/// join at position `i` was accepted.
pub open spec fn join_accepted(commands: Seq<RoomCommand>, i: int, user_id: Seq<char>) -> bool {
    &&& joins(commands[i], user_id)
    &&& !room_after(empty_room(), commands.take(i)).has_member(user_id)
}

/// Whether the user has a session after a sequence of commands: some join of
/// it was accepted, and no departure of it came after.
pub open spec fn session_open(commands: Seq<RoomCommand>, user_id: Seq<char>) -> bool {
    exists|i: int|
        0 <= i < commands.len() && #[trigger] join_accepted(commands, i, user_id) && forall|j: int|
            i < j < commands.len() ==> !leaves(#[trigger] commands[j], user_id)
}

/// Every sequence of commands keeps ids unique.
pub proof fn lemma_room_after_wf(s: RoomStateView, commands: Seq<RoomCommand>)
    requires
        s.wf(),
    ensures
        room_after(s, commands).wf(),
    decreases commands.len(),
{
    if commands.len() > 0 {
        lemma_room_after_wf(s, commands.drop_last());
        lemma_step_keeps_wf(room_after(s, commands.drop_last()), commands.last());
    }
}

/// A command that is neither a join nor a departure of a user does not change
/// whether that user is a member.
pub proof fn lemma_other_command_keeps_membership(s: RoomStateView, command: RoomCommand, user_id: Seq<char>)
    requires
        s.wf(),
        !joins(command, user_id),
        !leaves(command, user_id),
    ensures
        room_step(s, command).next.has_member(user_id) == s.has_member(user_id),
{
    let t = room_step(s, command).next;
    match command {
        RoomCommand::Join { user_id: v, metadata, .. } => {
            if !s.has_member(v@) {
                let last = s.members.len() as int;
                if s.has_member(user_id) {
                    let i = member_position(s.members, user_id)->0;
                    assert(t.members[i].user_id == user_id);
                }
                if t.has_member(user_id) {
                    let i = member_position(t.members, user_id)->0;
                    if i < last {
                        assert(s.members[i].user_id == user_id);
                    }
                }
            }
        },
        RoomCommand::Leave { user_id: v, metadata } => {
            match member_position(s.members, v@) {
                Some(p) => {
                    if s.has_member(user_id) {
                        let i = member_position(s.members, user_id)->0;
                        assert(i != p);
                        let k = if i < p { i } else { i - 1 };
                        assert(t.members[k].user_id == user_id);
                    }
                    if t.has_member(user_id) {
                        let k = member_position(t.members, user_id)->0;
                        let i = if k < p { k } else { k + 1 };
                        assert(s.members[i].user_id == user_id);
                    }
                },
                None => {},
            }
        },
        _ => {},
    }
}

/// From an empty room, after any sequence of commands, a user is a member
/// exactly when some join of it was accepted and no departure of it came
/// after.
pub proof fn lemma_members_after_history(commands: Seq<RoomCommand>, user_id: Seq<char>)
    ensures
        room_after(empty_room(), commands).has_member(user_id) <==> session_open(commands, user_id),
    decreases commands.len(),
{
    let n = commands.len() as int;
    if n == 0 {
        assert(!session_open(commands, user_id));
    } else {
        let p = commands.drop_last();
        let c = commands.last();
        let s = room_after(empty_room(), p);
        lemma_members_after_history(p, user_id);
        lemma_room_after_wf(empty_room(), p);
        assert(commands =~= p.push(c));
        assert forall|i: int| 0 <= i <= n - 1 implies #[trigger] commands.take(i) == p.take(i) by {
            assert(commands.take(i) =~= p.take(i));
        }
        assert(commands.take(n - 1) =~= p);
        assert(room_after(empty_room(), commands) == room_step(s, c).next);
        if joins(c, user_id) {
            if s.has_member(user_id) {
                let i = choose|i: int|
                    0 <= i < p.len() && #[trigger] join_accepted(p, i, user_id) && forall|j: int|
                        i < j < p.len() ==> !leaves(#[trigger] p[j], user_id);
                assert(commands[i] == p[i]);
                assert(join_accepted(commands, i, user_id));
                assert forall|j: int| i < j < commands.len() implies !leaves(#[trigger] commands[j], user_id) by {
                    if j < n - 1 {
                        assert(commands[j] == p[j]);
                    }
                }
            } else {
                let t = room_step(s, c).next;
                assert(t.members[t.members.len() - 1].user_id == user_id);
                assert(join_accepted(commands, n - 1, user_id));
            }
        } else if leaves(c, user_id) {
            match c {
                RoomCommand::Leave { metadata, .. } => {
                    lemma_rejoin_after_leave(s, user_id, metadata@, metadata@);
                },
                _ => {},
            }
            if session_open(commands, user_id) {
                let i = choose|i: int|
                    0 <= i < commands.len() && #[trigger] join_accepted(commands, i, user_id) && forall|j: int|
                        i < j < commands.len() ==> !leaves(#[trigger] commands[j], user_id);
                if i < n - 1 {
                    assert(!leaves(commands[n - 1], user_id));
                }
            }
        } else {
            lemma_other_command_keeps_membership(s, c, user_id);
            if session_open(p, user_id) {
                let i = choose|i: int|
                    0 <= i < p.len() && #[trigger] join_accepted(p, i, user_id) && forall|j: int|
                        i < j < p.len() ==> !leaves(#[trigger] p[j], user_id);
                assert(commands[i] == p[i]);
                assert(join_accepted(commands, i, user_id));
                assert forall|j: int| i < j < commands.len() implies !leaves(#[trigger] commands[j], user_id) by {
                    if j < n - 1 {
                        assert(commands[j] == p[j]);
                    }
                }
            }
            if session_open(commands, user_id) {
                let i = choose|i: int|
                    0 <= i < commands.len() && #[trigger] join_accepted(commands, i, user_id) && forall|j: int|
                        i < j < commands.len() ==> !leaves(#[trigger] commands[j], user_id);
                assert(i < n - 1);
                assert(commands[i] == p[i]);
                assert(join_accepted(p, i, user_id));
                assert forall|j: int| i < j < p.len() implies !leaves(#[trigger] p[j], user_id) by {
                    assert(commands[j] == p[j]);
                }
            }
        }
    }
}

/// Over any sequence of commands handled from an empty room, each join gets
/// exactly one answer and every other command none; a join is refused, with
/// the "already has an active session" message and with the room and the
/// other clients left as they were, exactly when its user has a session at
/// that point.
pub proof fn lemma_history_answers(commands: Seq<RoomCommand>, i: int)
    requires
        0 <= i < commands.len(),
    ensures
        (room_step(room_after(empty_room(), commands.take(i)), commands[i]).reply is Some)
            <==> (commands[i] is Join),
        commands[i] matches RoomCommand::Join { user_id: u, .. } ==> {
            let s = room_after(empty_room(), commands.take(i));
            let step = room_step(s, commands[i]);
            &&& (step.reply == Some(Err::<RoomJoinResponseView, Seq<char>>(already_joined_message(u@))))
                <==> session_open(commands.take(i), u@)
            &&& session_open(commands.take(i), u@) ==> step.next == s && step.event is None
        },
{
    let s = room_after(empty_room(), commands.take(i));
    match commands[i] {
        RoomCommand::Join { user_id: u, .. } => {
            lemma_members_after_history(commands.take(i), u@);
        },
        _ => {},
    }
}

/// The event told after an element is written carries that element, as the
/// writer sent it, and the user who wrote it; and the canvas then holds that
/// same element under its id.
pub proof fn lemma_update_announces_written_element(s: RoomStateView, user_id: Seq<char>, element: ElementView)
    requires
        s.wf(),
    ensures
        update_step(s, user_id, element).event == Some(RoomEventView::ElementUpdated { user_id, element }),
        element_position(update_step(s, user_id, element).next.canvas, element.id) matches Some(i)
            && update_step(s, user_id, element).next.canvas[i] == element,
{
    lemma_update_keeps_ids_distinct(s.canvas, element);
    let c = canvas_after_update(s.canvas, element);
    let p = match element_position(s.canvas, element.id) {
        Some(i) => i,
        None => c.len() - 1,
    };
    assert(c[p] == element);
}

/// A joining user is told of each member before it with the very event that
/// announced that member's own join: its id, its name and its extra
/// properties.
pub proof fn lemma_existing_members_carry_metadata(
    s: RoomStateView,
    user_id: Seq<char>,
    metadata: JoinMetadataView,
)
    requires
        s.wf(),
        !s.has_member(user_id),
    ensures
        join_step(s, user_id, metadata).reply matches Some(Ok(resp)) && resp.existing_members.len()
            == s.members.len() && forall|i: int|
            0 <= i < s.members.len() ==> #[trigger] resp.existing_members[i] == (RoomEventView::UserJoined {
                user_id: s.members[i].user_id,
                user_name: s.members[i].metadata.user_name,
                extra_properties: s.members[i].metadata.extra_properties,
            }),
{
}

/// The member that joined last is listed, to the next user who joins, with
/// exactly the event that announced its own join.
pub proof fn lemma_next_joiner_sees_announced_event(
    s: RoomStateView,
    first: Seq<char>,
    first_metadata: JoinMetadataView,
    second: Seq<char>,
    second_metadata: JoinMetadataView,
)
    requires
        s.wf(),
        !s.has_member(first),
        !s.has_member(second),
        first != second,
    ensures
        ({
            let t = join_step(s, first, first_metadata).next;
            &&& join_step(t, second, second_metadata).reply matches Some(Ok(resp))
            &&& resp.existing_members.len() == s.members.len() + 1
            &&& Some(resp.existing_members[s.members.len() as int]) == join_step(s, first, first_metadata).event
            &&& resp.existing_members[s.members.len() as int] == (RoomEventView::UserJoined {
                user_id: first,
                user_name: first_metadata.user_name,
                extra_properties: first_metadata.extra_properties,
            })
        }),
{
    let t = join_step(s, first, first_metadata).next;
    assert(t.members[s.members.len() as int].user_id == first);
    assert forall|i: int| 0 <= i < t.members.len() implies t.members[i].user_id != second by {
        if i < s.members.len() {
            assert(s.members[i] == t.members[i]);
        }
    }
    assert(!t.has_member(second));
}

} // verus!
