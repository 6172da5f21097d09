//! Notifications that arrive from the remote service.

use vstd::prelude::*;
use crate::model::{texts, EventID, RoomID, UserID, UserIdView};

verus! {

/// What a membership event did to a user.
#[derive(Clone, Copy, Debug, PartialEq, Eq, Hash)]
pub enum MembershipAction {
    Join,
    Leave,
    Invite,
    Ban,
}

/// Something that happened in one room.
#[derive(Debug, PartialEq, Eq)]
pub enum RoomEvent {
    /// The room's canonical name was set.
    CanonicalAlias(String),
    /// The room's join policy changed.
    JoinRules(String),
    /// The room was created.
    Create,
    /// Names under which the room can be reached were announced.
    Aliases(Vec<String>),
    /// The room's power levels changed.
    PowerLevels,
    /// Who may read the room's history changed.
    HistoryVisibility(String),
    /// A user gave the room a display name.
    Name(UserID, String),
    /// A user gave the room an avatar.
    Avatar(UserID, String),
    /// A user's membership changed.
    Membership(UserID, MembershipAction),
    /// A user said something.
    Message(UserID, String),
    /// A user changed the topic.
    Topic(UserID, String),
    /// An event of a type this engine does not know, with its raw text.
    Unknown(String, String),
}

/// Mathematical value of a [`RoomEvent`].
pub enum RoomEventView {
    CanonicalAlias(Seq<char>),
    JoinRules(Seq<char>),
    Create,
    Aliases(Seq<Seq<char>>),
    PowerLevels,
    HistoryVisibility(Seq<char>),
    Name(UserIdView, Seq<char>),
    Avatar(UserIdView, Seq<char>),
    Membership(UserIdView, MembershipAction),
    Message(UserIdView, Seq<char>),
    Topic(UserIdView, Seq<char>),
    Unknown(Seq<char>, Seq<char>),
}

impl View for RoomEvent {
    type V = RoomEventView;

    open spec fn view(&self) -> RoomEventView {
        match *self {
            RoomEvent::CanonicalAlias(name) => RoomEventView::CanonicalAlias(name@),
            RoomEvent::JoinRules(rules) => RoomEventView::JoinRules(rules@),
            RoomEvent::Create => RoomEventView::Create,
            RoomEvent::Aliases(list) => RoomEventView::Aliases(texts(list@)),
            RoomEvent::PowerLevels => RoomEventView::PowerLevels,
            RoomEvent::HistoryVisibility(v) => RoomEventView::HistoryVisibility(v@),
            RoomEvent::Name(user, name) => RoomEventView::Name(user@, name@),
            RoomEvent::Avatar(user, url) => RoomEventView::Avatar(user@, url@),
            RoomEvent::Membership(user, action) => RoomEventView::Membership(user@, action),
            RoomEvent::Message(user, text) => RoomEventView::Message(user@, text@),
            RoomEvent::Topic(user, topic) => RoomEventView::Topic(user@, topic@),
            RoomEvent::Unknown(kind, raw) => RoomEventView::Unknown(kind@, raw@),
        }
    }
}

impl Clone for RoomEvent {
    fn clone(&self) -> (res: Self)
        ensures
            res@ == self@,
    {
        match self {
            RoomEvent::CanonicalAlias(name) => RoomEvent::CanonicalAlias(name.clone()),
            RoomEvent::JoinRules(rules) => RoomEvent::JoinRules(rules.clone()),
            RoomEvent::Create => RoomEvent::Create,
            RoomEvent::Aliases(list) => {
                let copy = list.clone();
                assert(texts(copy@) =~= texts(list@));
                RoomEvent::Aliases(copy)
            },
            RoomEvent::PowerLevels => RoomEvent::PowerLevels,
            RoomEvent::HistoryVisibility(v) => RoomEvent::HistoryVisibility(v.clone()),
            RoomEvent::Name(user, name) => RoomEvent::Name(user.clone(), name.clone()),
            RoomEvent::Avatar(user, url) => RoomEvent::Avatar(user.clone(), url.clone()),
            RoomEvent::Membership(user, action) => RoomEvent::Membership(user.clone(), *action),
            RoomEvent::Message(user, text) => RoomEvent::Message(user.clone(), text.clone()),
            RoomEvent::Topic(user, topic) => RoomEvent::Topic(user.clone(), topic.clone()),
            RoomEvent::Unknown(kind, raw) => RoomEvent::Unknown(kind.clone(), raw.clone()),
        }
    }
}

/// Values of a sequence of room events.
pub open spec fn room_events(events: Seq<RoomEvent>) -> Seq<RoomEventView> {
    events.map_values(|e: RoomEvent| e@)
}

/// What a remote event is about.
#[derive(Debug, PartialEq, Eq)]
pub enum EventData {
    /// Something happened in a room.
    Room(RoomID, RoomEvent),
    /// Somebody is typing in a room.
    Typing(RoomID),
    /// A user's presence changed.
    Presence(UserID),
    /// Anything else, by the name of its type.
    Unknown(String),
}

/// Mathematical value of an [`EventData`].
pub enum EventDataView {
    Room(Seq<char>, RoomEventView),
    Typing(Seq<char>),
    Presence(UserIdView),
    Unknown(Seq<char>),
}

impl View for EventData {
    type V = EventDataView;

    open spec fn view(&self) -> EventDataView {
        match *self {
            EventData::Room(room, event) => EventDataView::Room(room@, event@),
            EventData::Typing(room) => EventDataView::Typing(room@),
            EventData::Presence(user) => EventDataView::Presence(user@),
            EventData::Unknown(kind) => EventDataView::Unknown(kind@),
        }
    }
}

impl Clone for EventData {
    fn clone(&self) -> (res: Self)
        ensures
            res@ == self@,
    {
        match self {
            EventData::Room(room, event) => EventData::Room(room.clone(), event.clone()),
            EventData::Typing(room) => EventData::Typing(room.clone()),
            EventData::Presence(user) => EventData::Presence(user.clone()),
            EventData::Unknown(kind) => EventData::Unknown(kind.clone()),
        }
    }
}

/// One notification from the remote service. Only some carry an identifier.
#[derive(Debug, PartialEq, Eq)]
pub struct RemoteEvent {
    pub id: Option<EventID>,
    pub data: EventData,
}

/// Mathematical value of a [`RemoteEvent`].
pub struct RemoteEventView {
    pub id: Option<Seq<char>>,
    pub data: EventDataView,
}

/// Value of an optional event identifier.
pub open spec fn opt_event_id(id: Option<EventID>) -> Option<Seq<char>> {
    match id {
        Some(e) => Some(e@),
        None => None,
    }
}

impl View for RemoteEvent {
    type V = RemoteEventView;

    open spec fn view(&self) -> RemoteEventView {
        RemoteEventView { id: opt_event_id(self.id), data: self.data@ }
    }
}

impl Clone for RemoteEvent {
    fn clone(&self) -> (res: Self)
        ensures
            res@ == self@,
    {
        let id = match &self.id {
            Some(id) => Some(id.clone()),
            None => None,
        };
        RemoteEvent { id, data: self.data.clone() }
    }
}

/// Values of a sequence of remote events.
pub open spec fn remote_events(events: Seq<RemoteEvent>) -> Seq<RemoteEventView> {
    events.map_values(|e: RemoteEvent| e@)
}

} // verus!
