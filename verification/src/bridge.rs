//! The reactor's state and its decisions.

use vstd::prelude::*;
use crate::action::{
    actions, deliver, deliveries, login_sequence, outcome, Action, ActionView, BridgeError,
};
use crate::dedup::Deduplicator;
use crate::events::{remote_events, EventData, EventDataView, RemoteEvent, RemoteEventView};
use crate::model::{opt_text, EventID, RoomID};
use crate::protocol::{messages, Command, Message, MessageView};
use crate::room::{lemma_step_keeps_wf, Room, RoomView};
use crate::text::trimmed;

verus! {

/// Values of a sequence of rooms.
pub open spec fn room_views(rooms: Seq<Room>) -> Seq<RoomView> {
    rooms.map_values(|r: Room| r@)
}

/// The place of the oldest room that satisfies `wanted`, if there is one.
pub open spec fn first_room(rooms: Seq<RoomView>, wanted: spec_fn(RoomView) -> bool) -> Option<int>
    decreases rooms.len(),
{
    if rooms.len() == 0 {
        None
    } else {
        match first_room(rooms.drop_last(), wanted) {
            Some(i) => Some(i),
            None => if wanted(rooms.last()) {
                Some(rooms.len() - 1)
            } else {
                None
            },
        }
    }
}

/// The place of the room with identifier `id`.
pub open spec fn position(rooms: Seq<RoomView>, id: Seq<char>) -> Option<int> {
    first_room(rooms, |r: RoomView| r.id == id)
}

/// The place of the oldest room whose canonical name is `channel`.
pub open spec fn channel_position(rooms: Seq<RoomView>, channel: Seq<char>) -> Option<int> {
    first_room(rooms, |r: RoomView| r.canonical_alias == Some(channel))
}

/// What `first_room` finds is a room that is wanted, with none before it; it
/// finds nothing only where no room is wanted.
pub proof fn lemma_first_room(rooms: Seq<RoomView>, wanted: spec_fn(RoomView) -> bool)
    ensures
        match first_room(rooms, wanted) {
            Some(i) => 0 <= i < rooms.len() && wanted(rooms[i]) && forall|j: int|
                0 <= j < i ==> !wanted(#[trigger] rooms[j]),
            None => forall|j: int| 0 <= j < rooms.len() ==> !wanted(#[trigger] rooms[j]),
        },
    decreases rooms.len(),
{
    if rooms.len() > 0 {
        lemma_first_room(rooms.drop_last(), wanted);
        assert(forall|j: int|
            0 <= j < rooms.len() - 1 ==> rooms.drop_last()[j] == #[trigger] rooms[j]);
    }
}

/// A room that is wanted and has none before it is the one `first_room` finds.
pub proof fn lemma_first_room_is(rooms: Seq<RoomView>, wanted: spec_fn(RoomView) -> bool, i: int)
    requires
        0 <= i < rooms.len(),
        wanted(rooms[i]),
        forall|j: int| 0 <= j < i ==> !wanted(#[trigger] rooms[j]),
    ensures
        first_room(rooms, wanted) == Some(i),
{
    lemma_first_room(rooms, wanted);
}

/// What travels from the poller to the reactor.
#[derive(Debug, PartialEq, Eq)]
pub enum Event {
    /// A poll cycle has handed over its whole batch.
    EndPoll,
    /// One event of a batch.
    Matrix(RemoteEvent),
}

/// Mathematical value of an [`Event`].
pub enum EventView {
    EndPoll,
    Matrix(RemoteEventView),
}

impl View for Event {
    type V = EventView;

    open spec fn view(&self) -> EventView {
        match *self {
            Event::EndPoll => EventView::EndPoll,
            Event::Matrix(event) => EventView::Matrix(event@),
        }
    }
}

impl Clone for Event {
    fn clone(&self) -> (res: Self)
        ensures
            res@ == self@,
    {
        match self {
            Event::EndPoll => Event::EndPoll,
            Event::Matrix(event) => Event::Matrix(event.clone()),
        }
    }
}

/// Values of a sequence of notifications.
pub open spec fn notifications(events: Seq<Event>) -> Seq<EventView> {
    events.map_values(|e: Event| e@)
}

/// One thing that happens to a bridge in the course of a session: a remote
/// event is delivered, the client gives a command, or the identifier of a
/// message the bridge has sent is recorded.
pub enum Step {
    Remote(RemoteEventView),
    Client(MessageView),
    Sent(Seq<char>),
}

/// Mathematical value of a [`Bridge`].
pub struct BridgeView {
    /// The rooms, oldest first.
    pub rooms: Seq<RoomView>,
    /// The identifiers of the events handled so far.
    pub seen: Seq<Seq<char>>,
    /// The password the client gave, until a login uses it up.
    pub password: Option<Seq<char>>,
}

impl BridgeView {
    /// A bridge that has seen nothing.
    pub open spec fn fresh() -> BridgeView {
        BridgeView { rooms: Seq::empty(), seen: Seq::empty(), password: None }
    }

    /// What every bridge built by this module satisfies: no two rooms share
    /// an identifier, and every room is well formed.
    pub open spec fn wf(self) -> bool {
        &&& forall|i: int, j: int|
            0 <= i < j < self.rooms.len() ==> (#[trigger] self.rooms[i]).id
                != (#[trigger] self.rooms[j]).id
        &&& forall|i: int| 0 <= i < self.rooms.len() ==> (#[trigger] self.rooms[i]).wf()
    }

    /// The bridge once it has heard of the room `id`: a room that is not
    /// there yet is created, unresolved, behind the others.
    pub open spec fn with_room(self, id: Seq<char>) -> BridgeView {
        if position(self.rooms, id) is Some {
            self
        } else {
            BridgeView { rooms: self.rooms.push(RoomView::fresh(id)), ..self }
        }
    }

    /// Where the room `id` stands once the bridge has heard of it.
    pub open spec fn place(self, id: Seq<char>) -> int {
        match position(self.rooms, id) {
            Some(i) => i,
            None => self.rooms.len() as int,
        }
    }

    /// Whether an event has been handled before. An event without an
    /// identifier never counts as handled.
    pub open spec fn duplicate(self, event: RemoteEventView) -> bool {
        event.id matches Some(id) && self.seen.contains(id)
    }

    /// The bridge after an event's payload has been handed to the room it
    /// belongs to. Payloads that belong to no room change nothing.
    pub open spec fn routed(self, data: EventDataView) -> BridgeView {
        match data {
            EventDataView::Room(id, event) => {
                let rooms = self.with_room(id).rooms;
                let at = self.place(id);
                BridgeView { rooms: rooms.update(at, rooms[at].step(event)), ..self }
            },
            _ => self,
        }
    }

    /// What handing an event's payload to its room sends to the client.
    pub open spec fn routing(self, data: EventDataView) -> Seq<MessageView> {
        match data {
            EventDataView::Room(id, event) => self.with_room(id).rooms[self.place(id)].emitted(
                event,
            ),
            _ => Seq::empty(),
        }
    }

    /// The bridge after an identifier, if there is one, has been recorded.
    pub open spec fn noted(self, id: Option<Seq<char>>) -> BridgeView {
        match id {
            Some(i) => BridgeView { seen: self.seen.push(i), ..self },
            None => self,
        }
    }

    /// The bridge after one remote event: unchanged by a duplicate, else
    /// routed and recorded.
    pub open spec fn delivered(self, event: RemoteEventView) -> BridgeView {
        if self.duplicate(event) {
            self
        } else {
            self.routed(event.data).noted(event.id)
        }
    }

    /// What one remote event sends to the client, in emission order: nothing
    /// for a duplicate.
    pub open spec fn delivery(self, event: RemoteEventView) -> Seq<MessageView> {
        if self.duplicate(event) {
            Seq::empty()
        } else {
            self.routing(event.data)
        }
    }

    /// The bridge after a batch of remote events, handled one after the other.
    pub open spec fn delivered_all(self, events: Seq<RemoteEventView>) -> BridgeView
        decreases events.len(),
    {
        if events.len() == 0 {
            self
        } else {
            self.delivered_all(events.drop_last()).delivered(events.last())
        }
    }

    /// What a batch of remote events sends to the client: what each event
    /// sends, in the order of the batch.
    pub open spec fn delivery_all(self, events: Seq<RemoteEventView>) -> Seq<MessageView>
        decreases events.len(),
    {
        if events.len() == 0 {
            Seq::empty()
        } else {
            self.delivery_all(events.drop_last()) + self.delivered_all(
                events.drop_last(),
            ).delivery(events.last())
        }
    }

    /// The bridge after a notification from the poller.
    pub open spec fn notified(self, msg: EventView) -> BridgeView {
        match msg {
            EventView::EndPoll => self,
            EventView::Matrix(event) => self.delivered(event),
        }
    }

    /// What a notification from the poller asks for: the next poll cycle at
    /// the end of a batch, else the event's messages.
    pub open spec fn notification(self, msg: EventView) -> Seq<ActionView> {
        match msg {
            EventView::EndPoll => seq![ActionView::Poll],
            EventView::Matrix(event) => deliveries(self.delivery(event)),
        }
    }

    /// The bridge after one step of a session.
    pub open spec fn took(self, step: Step) -> BridgeView {
        match step {
            Step::Remote(event) => self.delivered(event),
            Step::Client(message) => self.commanded(message),
            Step::Sent(id) => self.noted(Some(id)),
        }
    }

    /// The bridge after a session: its steps, taken one after the other.
    pub open spec fn session(self, steps: Seq<Step>) -> BridgeView
        decreases steps.len(),
    {
        if steps.len() == 0 {
            self
        } else {
            self.session(steps.drop_last()).took(steps.last())
        }
    }

    /// The bridge after a command of the client: a password is kept until
    /// the login that uses it up.
    pub open spec fn commanded(self, message: MessageView) -> BridgeView {
        match message.command {
            Command::Pass => if message.args.len() > 0 {
                BridgeView { password: Some(message.args[0]), ..self }
            } else {
                self
            },
            Command::User => BridgeView { password: None, ..self },
            _ => self,
        }
    }

    /// What a command of the client asks for.
    pub open spec fn command(self, message: MessageView) -> Result<Seq<ActionView>, BridgeError> {
        match message.command {
            Command::Nick => match message.suffix {
                Some(name) => Ok(seq![ActionView::Nickname(name)]),
                None => if message.args.len() > 0 {
                    Ok(seq![ActionView::Nickname(message.args[0])])
                } else {
                    Ok(Seq::empty())
                },
            },
            Command::User => if message.args.len() > 0 && self.password is Some {
                Ok(login_sequence(trimmed(message.args[0]), trimmed(self.password->0)))
            } else {
                Err(BridgeError::MissingCredentials)
            },
            Command::Join => if message.args.len() > 0 {
                Ok(seq![ActionView::Join(message.args[0])])
            } else {
                Ok(Seq::empty())
            },
            Command::Ping => Ok(seq![ActionView::Pong]),
            Command::Quit => Ok(seq![ActionView::Quit]),
            Command::Privmsg => if message.args.len() > 0 && message.suffix is Some
                && channel_position(self.rooms, message.args[0]) is Some {
                Ok(
                    seq![
                        ActionView::Send(
                            self.rooms[channel_position(self.rooms, message.args[0])->0].id,
                            message.suffix->0,
                        ),
                    ],
                )
            } else {
                Ok(Seq::empty())
            },
            _ => Ok(Seq::empty()),
        }
    }
}

/// No remote event takes a bridge out of the well-formed states.
pub proof fn lemma_delivered_keeps_wf(bridge: BridgeView, event: RemoteEventView)
    requires
        bridge.wf(),
    ensures
        bridge.delivered(event).wf(),
{
    if !bridge.duplicate(event) {
        match event.data {
            EventDataView::Room(id, room_event) => {
                lemma_first_room(bridge.rooms, |r: RoomView| r.id == id);
                let rooms = bridge.with_room(id).rooms;
                let at = bridge.place(id);
                lemma_step_keeps_wf(rooms[at], room_event);
                assert(rooms[at].step(room_event).id == rooms[at].id);
            },
            _ => {},
        }
    }
}

/// The record of handled events only ever grows at its end: whatever
/// happens in a session, what was on record before is still there, in the
/// same places.
pub proof fn seen_is_append_only(bridge: BridgeView, steps: Seq<Step>)
    ensures
        bridge.seen.is_prefix_of(bridge.session(steps).seen),
    decreases steps.len(),
{
    if steps.len() > 0 {
        seen_is_append_only(bridge, steps.drop_last());
    }
}

/// Rooms live as long as the bridge: whatever happens in a session, every
/// room is still there afterwards, in the same place and under the same
/// identifier.
pub proof fn rooms_are_never_destroyed(bridge: BridgeView, steps: Seq<Step>)
    ensures
        bridge.rooms.len() <= bridge.session(steps).rooms.len(),
        forall|i: int|
            0 <= i < bridge.rooms.len() ==> (#[trigger] bridge.session(steps).rooms[i]).id
                == bridge.rooms[i].id,
    decreases steps.len(),
{
    if steps.len() > 0 {
        rooms_are_never_destroyed(bridge, steps.drop_last());
        let earlier = bridge.session(steps.drop_last());
        match steps.last() {
            Step::Remote(event) => {
                match event.data {
                    EventDataView::Room(id, room_event) => {
                        lemma_first_room(earlier.rooms, |r: RoomView| r.id == id);
                        let rooms = earlier.with_room(id).rooms;
                        let at = earlier.place(id);
                        assert(rooms[at].step(room_event).id == rooms[at].id);
                    },
                    _ => {},
                }
            },
            _ => {},
        }
    }
}

/// An identifier that is on record stays on record for the rest of the
/// session.
pub proof fn lemma_seen_is_kept(bridge: BridgeView, steps: Seq<Step>, id: Seq<char>)
    requires
        bridge.seen.contains(id),
    ensures
        bridge.session(steps).seen.contains(id),
{
    seen_is_append_only(bridge, steps);
    let at = choose|i: int| 0 <= i < bridge.seen.len() && bridge.seen[i] == id;
    assert(bridge.session(steps).seen[at] == id);
}

/// An event whose identifier is on record sends nothing and changes nothing,
/// whatever has happened in the session since the identifier was recorded.
pub proof fn seen_event_stays_ignored(
    bridge: BridgeView,
    id: Seq<char>,
    between: Seq<Step>,
    again: RemoteEventView,
)
    requires
        bridge.seen.contains(id),
        again.id == Some(id),
    ensures
        bridge.session(between).delivery(again) == Seq::<MessageView>::empty(),
        bridge.session(between).delivered(again) == bridge.session(between),
{
    lemma_seen_is_kept(bridge, between, id);
}

/// However often an event with an identifier is delivered in a session, only
/// its first delivery has any effect: it is handed to its room and put on
/// record, and every later delivery, whatever happened in between, sends
/// nothing and changes nothing.
pub proof fn redelivery_is_ignored(
    bridge: BridgeView,
    first: RemoteEventView,
    between: Seq<Step>,
    again: RemoteEventView,
)
    requires
        first.id is Some,
        again.id == first.id,
    ensures
        !bridge.duplicate(first) ==> bridge.delivery(first) == bridge.routing(first.data)
            && bridge.delivered(first) == bridge.routed(first.data).noted(first.id),
        bridge.delivered(first).session(between).delivery(again) == Seq::<MessageView>::empty(),
        bridge.delivered(first).session(between).delivered(again) == bridge.delivered(
            first,
        ).session(between),
{
    let id = first.id->0;
    let once = bridge.delivered(first);
    if !bridge.duplicate(first) {
        assert(once.seen == bridge.seen.push(id));
        assert(once.seen[bridge.seen.len() as int] == id);
    }
    seen_event_stays_ignored(once, id, between, again);
}

/// What the bridge itself has sent never comes back to the client: once the
/// identifier of a sent message is recorded, its echo sends nothing and
/// changes nothing, whatever happened in between.
pub proof fn own_echo_is_ignored(
    bridge: BridgeView,
    id: Seq<char>,
    between: Seq<Step>,
    echo: RemoteEventView,
)
    requires
        echo.id == Some(id),
    ensures
        bridge.noted(Some(id)).session(between).delivery(echo) == Seq::<MessageView>::empty(),
        bridge.noted(Some(id)).session(between).delivered(echo) == bridge.noted(
            Some(id),
        ).session(between),
{
    let recorded = bridge.noted(Some(id));
    assert(recorded.seen[bridge.seen.len() as int] == id);
    seen_event_stays_ignored(recorded, id, between, echo);
}

/// Handling a batch of remote events is a session of deliveries.
pub proof fn lemma_batch_is_session(bridge: BridgeView, events: Seq<RemoteEventView>)
    ensures
        bridge.delivered_all(events) == bridge.session(
            events.map_values(|e: RemoteEventView| Step::Remote(e)),
        ),
    decreases events.len(),
{
    let steps = events.map_values(|e: RemoteEventView| Step::Remote(e));
    if events.len() > 0 {
        lemma_batch_is_session(bridge, events.drop_last());
        assert(steps.drop_last() =~= events.drop_last().map_values(
            |e: RemoteEventView| Step::Remote(e),
        ));
    }
}

/// Nothing that happens in a session takes a bridge out of the well-formed
/// states.
pub proof fn lemma_session_keeps_wf(bridge: BridgeView, steps: Seq<Step>)
    requires
        bridge.wf(),
    ensures
        bridge.session(steps).wf(),
    decreases steps.len(),
{
    if steps.len() > 0 {
        lemma_session_keeps_wf(bridge, steps.drop_last());
        let earlier = bridge.session(steps.drop_last());
        match steps.last() {
            Step::Remote(event) => lemma_delivered_keeps_wf(earlier, event),
            _ => {},
        }
    }
}

/// A message for a channel that no room goes by asks for nothing and changes
/// nothing.
pub proof fn unroutable_message_is_dropped(bridge: BridgeView, message: MessageView)
    requires
        message.command == Command::Privmsg,
        message.args.len() > 0,
        forall|i: int|
            0 <= i < bridge.rooms.len() ==> (#[trigger] bridge.rooms[i]).canonical_alias != Some(
                message.args[0],
            ),
    ensures
        bridge.command(message) == Ok::<Seq<ActionView>, BridgeError>(Seq::empty()),
        bridge.commanded(message) == bridge,
{
    lemma_first_room(bridge.rooms, |r: RoomView| r.canonical_alias == Some(message.args[0]));
}

/// No batch of remote events takes a bridge out of the well-formed states.
pub proof fn lemma_delivered_all_keeps_wf(bridge: BridgeView, events: Seq<RemoteEventView>)
    requires
        bridge.wf(),
    ensures
        bridge.delivered_all(events).wf(),
    decreases events.len(),
{
    if events.len() > 0 {
        lemma_delivered_all_keeps_wf(bridge, events.drop_last());
        lemma_delivered_keeps_wf(bridge.delivered_all(events.drop_last()), events.last());
    }
}

/// The reactor's state: the rooms, the record of handled events and the
/// credentials the client has given so far.
#[derive(Debug)]
pub struct Bridge {
    rooms: Vec<Room>,
    seen_events: Deduplicator,
    password: Option<String>,
}

impl View for Bridge {
    type V = BridgeView;

    closed spec fn view(&self) -> BridgeView {
        BridgeView {
            rooms: room_views(self.rooms@),
            seen: self.seen_events@,
            password: opt_text(self.password),
        }
    }
}

impl Bridge {
    /// A bridge that has seen nothing.
    pub fn new() -> (res: Bridge)
        ensures
            res@ == BridgeView::fresh(),
            res@.wf(),
    {
        let res = Bridge { rooms: Vec::new(), seen_events: Deduplicator::new(), password: None };
        assert(room_views(res.rooms@) =~= Seq::empty());
        res
    }

    /// Where the room `id` stands, if the bridge has heard of it.
    fn find(&self, id: &RoomID) -> (res: Option<usize>)
        ensures
            match res {
                Some(i) => position(self@.rooms, id@) == Some(i as int) && i < self.rooms.len(),
                None => position(self@.rooms, id@) is None,
            },
    {
        let ghost wanted = |r: RoomView| r.id == id@;
        let mut i: usize = 0;
        while i < self.rooms.len()
            invariant
                i <= self.rooms.len(),
                wanted == (|r: RoomView| r.id == id@),
                forall|j: int| 0 <= j < i ==> !wanted(#[trigger] self@.rooms[j]),
            decreases self.rooms.len() - i,
        {
            if *self.rooms[i].id() == *id {
                proof {
                    lemma_first_room_is(self@.rooms, wanted, i as int);
                }
                return Some(i);
            }
            i += 1;
        }
        proof {
            lemma_first_room(self@.rooms, wanted);
        }
        None
    }

    /// The room with identifier `id`. A room the bridge has not heard of is
    /// created first.
    pub fn room_from_matrix(&mut self, id: &RoomID) -> (room: &mut Room)
        ensures
            room@.id == id@,
            room@ == old(self)@.with_room(id@).rooms[old(self)@.place(id@)],
            final(self)@ == (BridgeView {
                rooms: old(self)@.with_room(id@).rooms.update(
                    old(self)@.place(id@),
                    final(room)@,
                ),
                ..old(self)@
            }),
            old(self)@.wf() && final(room)@.wf() && final(room)@.id == id@ ==> final(self)@.wf(),
    {
        let at = match self.find(id) {
            Some(i) => i,
            None => {
                let ghost before = self.rooms@;
                self.rooms.push(Room::new(id.clone()));
                assert(room_views(self.rooms@) =~= room_views(before).push(RoomView::fresh(id@)));
                self.rooms.len() - 1
            },
        };
        let ghost rooms = self.rooms@;
        assert(room_views(rooms) == old(self)@.with_room(id@).rooms);
        assert(rooms[at as int]@.id == id@) by {
            lemma_first_room(old(self)@.rooms, |r: RoomView| r.id == id@);
        }
        let room = &mut self.rooms[at];
        proof {
            assert(room_views(rooms.update(at as int, *final(room))) =~= room_views(rooms).update(
                at as int,
                final(room)@,
            ));
            lemma_first_room(old(self)@.rooms, |r: RoomView| r.id == id@);
        }
        room
    }

    /// Handles one remote event and returns what it sends to the client, in
    /// emission order.
    ///
    /// An event whose identifier has been recorded is dropped. Any other is
    /// handed to the room it belongs to, which is created if need be, and its
    /// identifier is recorded.
    pub fn handle_matrix(&mut self, evt: RemoteEvent) -> (out: Vec<Message>)
        ensures
            final(self)@ == old(self)@.delivered(evt@),
            messages(out@) == old(self)@.delivery(evt@),
            old(self)@.wf() ==> final(self)@.wf(),
    {
        proof {
            if old(self)@.wf() {
                lemma_delivered_keeps_wf(old(self)@, evt@);
            }
        }
        let duplicate = match &evt.id {
            Some(id) => self.seen_events.has_seen(id),
            None => false,
        };
        if duplicate {
            let out: Vec<Message> = Vec::new();
            assert(messages(out@) =~= Seq::empty());
            return out;
        }
        let out = match evt.data {
            EventData::Room(room_id, room_event) => {
                let room = self.room_from_matrix(&room_id);
                room.handle_event(room_event)
            },
            _ => {
                let out: Vec<Message> = Vec::new();
                assert(messages(out@) =~= Seq::empty());
                out
            },
        };
        match evt.id {
            Some(id) => self.seen_events.record(id),
            None => {},
        }
        out
    }

    /// Where the oldest room with the canonical name `channel` stands.
    fn find_channel(&self, channel: &String) -> (res: Option<usize>)
        ensures
            match res {
                Some(i) => channel_position(self@.rooms, channel@) == Some(i as int) && i
                    < self.rooms.len(),
                None => channel_position(self@.rooms, channel@) is None,
            },
    {
        let ghost wanted = |r: RoomView| r.canonical_alias == Some(channel@);
        let mut i: usize = 0;
        while i < self.rooms.len()
            invariant
                i <= self.rooms.len(),
                wanted == (|r: RoomView| r.canonical_alias == Some(channel@)),
                forall|j: int| 0 <= j < i ==> !wanted(#[trigger] self@.rooms[j]),
            decreases self.rooms.len() - i,
        {
            let found = match self.rooms[i].canonical_alias() {
                Some(alias) => *alias == *channel,
                None => false,
            };
            if found {
                proof {
                    lemma_first_room_is(self@.rooms, wanted, i as int);
                }
                return Some(i);
            }
            i += 1;
        }
        proof {
            lemma_first_room(self@.rooms, wanted);
        }
        None
    }

    /// The oldest room whose canonical name is `id`, the channel name the
    /// client uses. Unresolved rooms are never found.
    pub fn room_from_irc(&mut self, id: &String) -> (res: Option<&mut Room>)
        ensures
            match channel_position(old(self)@.rooms, id@) {
                Some(at) => res matches Some(room) && room@ == old(self)@.rooms[at]
                    && room@.canonical_alias == Some(id@) && final(self)@ == (BridgeView {
                    rooms: old(self)@.rooms.update(at, final(room)@),
                    ..old(self)@
                }),
                None => res is None && final(self)@ == old(self)@,
            },
            old(self)@.wf() && (res matches Some(room) ==> final(room)@.wf() && final(room)@.id
                == room@.id) ==> final(self)@.wf(),
    {
        proof {
            lemma_first_room(old(self)@.rooms, |r: RoomView| r.canonical_alias == Some(id@));
        }
        match self.find_channel(id) {
            Some(at) => {
                let ghost rooms = self.rooms@;
                let room = &mut self.rooms[at];
                proof {
                    assert(room_views(rooms.update(at as int, *final(room))) =~= room_views(
                        rooms,
                    ).update(at as int, final(room)@));
                }
                Some(room)
            },
            None => None,
        }
    }

    /// Records the identifier of an event the bridge itself has sent, so that
    /// its echo is dropped when a later poll brings it back.
    pub fn record(&mut self, id: EventID)
        ensures
            final(self)@ == old(self)@.noted(Some(id@)),
    {
        self.seen_events.record(id);
    }

    /// Handles the initial snapshot: every event in the order of the
    /// snapshot, then the first poll cycle.
    pub fn start_matrix(&mut self, events: Vec<RemoteEvent>) -> (out: Vec<Action>)
        ensures
            final(self)@ == old(self)@.delivered_all(remote_events(events@)),
            actions(out@) == deliveries(
                old(self)@.delivery_all(remote_events(events@)),
            ).push(ActionView::Poll),
            old(self)@.wf() ==> final(self)@.wf(),
    {
        let ghost before = self@;
        let ghost batch = remote_events(events@);
        let mut out: Vec<Action> = Vec::new();
        proof {
            assert(batch.take(0) =~= Seq::empty());
            assert(actions(out@) =~= deliveries(before.delivery_all(batch.take(0))));
        }
        for evt in it: events
            invariant
                it.seq() == events@,
                batch == remote_events(events@),
                self@ == before.delivered_all(batch.take(it.index() as int)),
                actions(out@) == deliveries(before.delivery_all(batch.take(it.index() as int))),
        {
            let ghost done = it.index() as int;
            let ghost sent = out@;
            let ghost now = self@;
            proof {
                let next = batch.take(done + 1);
                assert(next.drop_last() =~= batch.take(done));
                assert(next.last() == evt@);
            }
            let written = self.handle_matrix(evt);
            let mut delivered = deliver(written);
            out.append(&mut delivered);
            proof {
                assert(actions(out@) =~= actions(sent) + deliveries(now.delivery(evt@)));
                assert(deliveries(before.delivery_all(batch.take(done)) + now.delivery(evt@))
                    =~= deliveries(before.delivery_all(batch.take(done))) + deliveries(
                    now.delivery(evt@),
                ));
            }
        }
        proof {
            assert(batch.take(batch.len() as int) =~= batch);
            if before.wf() {
                lemma_delivered_all_keeps_wf(before, batch);
            }
        }
        let ghost sent = out@;
        out.push(Action::Poll);
        assert(actions(out@) =~= actions(sent).push(ActionView::Poll));
        out
    }

    /// Handles a notification from the poller: an event is handled and its
    /// messages are to be written; the end of a batch starts the next cycle.
    pub fn notify(&mut self, msg: Event) -> (out: Vec<Action>)
        ensures
            final(self)@ == old(self)@.notified(msg@),
            actions(out@) == old(self)@.notification(msg@),
            old(self)@.wf() ==> final(self)@.wf(),
    {
        match msg {
            Event::EndPoll => {
                let mut out: Vec<Action> = Vec::new();
                out.push(Action::Poll);
                assert(actions(out@) =~= seq![ActionView::Poll]);
                out
            },
            Event::Matrix(evt) => {
                let written = self.handle_matrix(evt);
                deliver(written)
            },
        }
    }

    /// Turns the batch one poll cycle fetched into what the poller forwards
    /// to the reactor: each event in the order received, then the end of
    /// the batch.
    pub fn poll_matrix(batch: Vec<RemoteEvent>) -> (out: Vec<Event>)
        ensures
            notifications(out@) == remote_events(batch@).map_values(
                |e: RemoteEventView| EventView::Matrix(e),
            ).push(EventView::EndPoll),
    {
        let ghost wrap = |e: RemoteEventView| EventView::Matrix(e);
        let ghost events = remote_events(batch@);
        let mut out: Vec<Event> = Vec::new();
        assert(notifications(out@) =~= events.take(0).map_values(wrap));
        for evt in it: batch
            invariant
                it.seq() == batch@,
                events == remote_events(batch@),
                wrap == (|e: RemoteEventView| EventView::Matrix(e)),
                notifications(out@) == events.take(it.index() as int).map_values(wrap),
        {
            let ghost sent = out@;
            out.push(Event::Matrix(evt));
            assert(notifications(out@) =~= notifications(sent).push(EventView::Matrix(evt@)));
            assert(events.take(it.index() + 1).map_values(wrap) =~= events.take(
                it.index() as int,
            ).map_values(wrap).push(wrap(evt@)));
        }
        assert(events.take(events.len() as int) =~= events);
        let ghost sent = out@;
        out.push(Event::EndPoll);
        assert(notifications(out@) =~= notifications(sent).push(EventView::EndPoll));
        out
    }

    /// Handles one command of the client.
    ///
    /// A password is kept for the login. A user name triggers the login with
    /// the password kept, both without the white space around them, and fails
    /// where either is missing. A message for a channel that no resolved room
    /// goes by is dropped. Commands that lack what they need, and commands the
    /// engine does not know, ask for nothing.
    pub fn handle_client(&mut self, message: Message) -> (res: Result<Vec<Action>, BridgeError>)
        ensures
            final(self)@ == old(self)@.commanded(message@),
            outcome(res) == old(self)@.command(message@),
    {
        let mut out: Vec<Action> = Vec::new();
        assert(actions(out@) =~= Seq::empty());
        match message.command {
            Command::Pass => {
                if message.args.len() > 0 {
                    self.password = Some(message.args[0].clone());
                }
            },
            Command::Nick => {
                match message.suffix {
                    Some(name) => {
                        out.push(Action::Nickname(name));
                        assert(actions(out@) =~= seq![ActionView::Nickname(name@)]);
                    },
                    None => {
                        if message.args.len() > 0 {
                            let name = message.args[0].clone();
                            out.push(Action::Nickname(name));
                            assert(actions(out@) =~= seq![ActionView::Nickname(name@)]);
                        }
                    },
                }
            },
            Command::User => {
                let mut password: Option<String> = None;
                std::mem::swap(&mut self.password, &mut password);
                if message.args.len() == 0 {
                    return Err(BridgeError::MissingCredentials);
                }
                match password {
                    Some(password) => {
                        let username = message.args[0].as_str().trim().to_owned();
                        let password = password.as_str().trim().to_owned();
                        return Ok(Action::login_sequence(username, password));
                    },
                    None => {
                        return Err(BridgeError::MissingCredentials);
                    },
                }
            },
            Command::Join => {
                if message.args.len() > 0 {
                    let channel = message.args[0].clone();
                    out.push(Action::Join(channel));
                    assert(actions(out@) =~= seq![ActionView::Join(channel@)]);
                }
            },
            Command::Ping => {
                out.push(Action::Pong);
                assert(actions(out@) =~= seq![ActionView::Pong]);
            },
            Command::Quit => {
                out.push(Action::Quit);
                assert(actions(out@) =~= seq![ActionView::Quit]);
            },
            Command::Privmsg => {
                if message.args.len() > 0 {
                    match message.suffix {
                        Some(text) => {
                            let ghost rooms = self@.rooms;
                            let target = match self.room_from_irc(&message.args[0]) {
                                Some(room) => Some(room.id().clone()),
                                None => None,
                            };
                            assert(self@.rooms =~= rooms) by {
                                lemma_first_room(
                                    rooms,
                                    |r: RoomView| r.canonical_alias == Some(message.args[0]@),
                                );
                            }
                            match target {
                                Some(room_id) => {
                                    out.push(Action::Send(room_id, text));
                                    assert(actions(out@) =~= seq![
                                        ActionView::Send(room_id@, text@),
                                    ]);
                                },
                                None => {},
                            }
                        },
                        None => {},
                    }
                }
            },
            _ => {},
        }
        Ok(out)
    }

    /// The rooms, oldest first.
    pub fn rooms(&self) -> (res: &Vec<Room>)
        ensures
            room_views(res@) == self@.rooms,
    {
        &self.rooms
    }

    /// The record of handled events.
    pub fn seen_events(&self) -> (res: &Deduplicator)
        ensures
            res@ == self@.seen,
    {
        &self.seen_events
    }
}

} // verus!
