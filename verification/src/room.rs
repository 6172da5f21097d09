//! The per-room state machine.
//!
//! A room starts out unresolved: its canonical name is not known, so nothing
//! that happens in it can be addressed to the client. Content events are kept
//! in arrival order until a name turns up, then replayed oldest first. From
//! then on every content event is translated at once.

use vstd::prelude::*;
use crate::events::{room_events, MembershipAction, RoomEvent, RoomEventView};
use crate::model::{opt_text, sender_identity, users, RoomID, UserID, UserIdView};
use crate::protocol::{messages, outbound, Command, Message, MessageView};

verus! {

/// The message a content event becomes once the room's name is `channel`.
/// Events that say nothing to the client have no translation.
pub open spec fn translation(channel: Seq<char>, event: RoomEventView) -> Option<MessageView> {
    match event {
        RoomEventView::Membership(user, MembershipAction::Join) => Some(
            outbound(sender_identity(user), Command::Join, channel, None),
        ),
        RoomEventView::Membership(user, MembershipAction::Leave) => Some(
            outbound(sender_identity(user), Command::Part, channel, None),
        ),
        RoomEventView::Message(user, text) => Some(
            outbound(sender_identity(user), Command::Privmsg, channel, Some(text)),
        ),
        RoomEventView::Topic(user, topic) => Some(
            outbound(sender_identity(user), Command::Topic, channel, Some(topic)),
        ),
        _ => None,
    }
}

/// Content events are the ones with a translation: joins, leaves, messages
/// and topic changes.
pub open spec fn is_content(event: RoomEventView) -> bool {
    match event {
        RoomEventView::Membership(_, MembershipAction::Join) => true,
        RoomEventView::Membership(_, MembershipAction::Leave) => true,
        RoomEventView::Message(_, _) => true,
        RoomEventView::Topic(_, _) => true,
        _ => false,
    }
}

/// The user a translated event adds to the member list: whoever joined or left.
pub open spec fn member_of(event: RoomEventView) -> Option<UserIdView> {
    match event {
        RoomEventView::Membership(user, MembershipAction::Join) => Some(user),
        RoomEventView::Membership(user, MembershipAction::Leave) => Some(user),
        _ => None,
    }
}

/// The messages that replaying `events` under the name `channel` produces,
/// oldest event first.
pub open spec fn replayed(channel: Seq<char>, events: Seq<RoomEventView>) -> Seq<MessageView>
    decreases events.len(),
{
    if events.len() == 0 {
        Seq::empty()
    } else {
        let earlier = replayed(channel, events.drop_last());
        match translation(channel, events.last()) {
            Some(message) => earlier.push(message),
            None => earlier,
        }
    }
}

/// The users that replaying `events` adds to the member list, oldest event first.
pub open spec fn joined(events: Seq<RoomEventView>) -> Seq<UserIdView>
    decreases events.len(),
{
    if events.len() == 0 {
        Seq::empty()
    } else {
        let earlier = joined(events.drop_last());
        match member_of(events.last()) {
            Some(user) => earlier.push(user),
            None => earlier,
        }
    }
}

/// Value of an optional message.
pub open spec fn opt_message(message: Option<Message>) -> Option<MessageView> {
    match message {
        Some(m) => Some(m@),
        None => None,
    }
}

/// Mathematical value of a [`Room`].
pub struct RoomView {
    pub id: Seq<char>,
    pub canonical_alias: Option<Seq<char>>,
    pub join_rules: Option<Seq<char>>,
    pub members: Seq<UserIdView>,
    pub pending: Seq<RoomEventView>,
}

impl RoomView {
    /// A room that has just been heard of.
    pub open spec fn fresh(id: Seq<char>) -> RoomView {
        RoomView {
            id,
            canonical_alias: None,
            join_rules: None,
            members: Seq::empty(),
            pending: Seq::empty(),
        }
    }

    /// What every room built by this module satisfies: only content events
    /// wait, and none waits once the name is known.
    pub open spec fn wf(self) -> bool {
        &&& self.canonical_alias is Some ==> self.pending.len() == 0
        &&& forall|i: int| 0 <= i < self.pending.len() ==> is_content(#[trigger] self.pending[i])
    }

    /// The room after its waiting events have been replayed.
    pub open spec fn drained(self) -> RoomView {
        RoomView {
            members: self.members + joined(self.pending),
            pending: Seq::empty(),
            ..self
        }
    }

    /// The room after it has taken the name `name`.
    pub open spec fn named(self, name: Seq<char>) -> RoomView {
        if self.canonical_alias is None {
            RoomView { canonical_alias: Some(name), ..self }.drained()
        } else {
            RoomView { canonical_alias: Some(name), ..self }
        }
    }

    /// What taking the name `name` sends to the client.
    pub open spec fn naming(self, name: Seq<char>) -> Seq<MessageView> {
        if self.canonical_alias is None {
            replayed(name, self.pending)
        } else {
            Seq::empty()
        }
    }

    /// The room after a content event: translated if the name is known, kept
    /// waiting if not. Other events leave the room as it is.
    pub open spec fn delivered(self, event: RoomEventView) -> RoomView {
        if !is_content(event) {
            self
        } else if self.canonical_alias is Some {
            match member_of(event) {
                Some(user) => RoomView { members: self.members.push(user), ..self },
                None => self,
            }
        } else {
            RoomView { pending: self.pending.push(event), ..self }
        }
    }

    /// What delivering an event sends to the client.
    pub open spec fn delivery(self, event: RoomEventView) -> Seq<MessageView> {
        if self.canonical_alias is Some && is_content(event) {
            seq![translation(self.canonical_alias->0, event)->0]
        } else {
            Seq::empty()
        }
    }

    /// The room after any event.
    pub open spec fn step(self, event: RoomEventView) -> RoomView {
        match event {
            RoomEventView::CanonicalAlias(name) => self.named(name),
            RoomEventView::Aliases(list) => if self.canonical_alias is None && list.len() > 0 {
                self.named(list[0])
            } else {
                self
            },
            RoomEventView::JoinRules(rules) => RoomView { join_rules: Some(rules), ..self },
            _ => self.delivered(event),
        }
    }

    /// What any event sends to the client, in emission order.
    pub open spec fn emitted(self, event: RoomEventView) -> Seq<MessageView> {
        match event {
            RoomEventView::CanonicalAlias(name) => self.naming(name),
            RoomEventView::Aliases(list) => if self.canonical_alias is None && list.len() > 0 {
                self.naming(list[0])
            } else {
                Seq::empty()
            },
            RoomEventView::JoinRules(_) => Seq::empty(),
            _ => self.delivery(event),
        }
    }

    /// The room after a run of events, handled one after the other.
    pub open spec fn after(self, events: Seq<RoomEventView>) -> RoomView
        decreases events.len(),
    {
        if events.len() == 0 {
            self
        } else {
            self.after(events.drop_last()).step(events.last())
        }
    }

    /// What a run of events sends to the client: what each event sends, in
    /// the order of the run.
    pub open spec fn output(self, events: Seq<RoomEventView>) -> Seq<MessageView>
        decreases events.len(),
    {
        if events.len() == 0 {
            Seq::empty()
        } else {
            self.output(events.drop_last()) + self.after(events.drop_last()).emitted(
                events.last(),
            )
        }
    }
}

/// Whether an event is a content event.
pub fn has_translation(event: &RoomEvent) -> (res: bool)
    ensures
        res == is_content(event@),
{
    match event {
        RoomEvent::Membership(_, action) => match action {
            MembershipAction::Join => true,
            MembershipAction::Leave => true,
            _ => false,
        },
        RoomEvent::Message(_, _) => true,
        RoomEvent::Topic(_, _) => true,
        _ => false,
    }
}

/// Translates one event for a room whose name is `channel`.
pub fn translate(channel: &String, event: &RoomEvent) -> (res: Option<Message>)
    ensures
        opt_message(res) == translation(channel@, event@),
{
    match event {
        RoomEvent::Membership(user, action) => match action {
            MembershipAction::Join => Some(
                Message::outbound(user.identity(), Command::Join, channel.clone(), None),
            ),
            MembershipAction::Leave => Some(
                Message::outbound(user.identity(), Command::Part, channel.clone(), None),
            ),
            _ => None,
        },
        RoomEvent::Message(user, text) => Some(
            Message::outbound(
                user.identity(),
                Command::Privmsg,
                channel.clone(),
                Some(text.clone()),
            ),
        ),
        RoomEvent::Topic(user, topic) => Some(
            Message::outbound(
                user.identity(),
                Command::Topic,
                channel.clone(),
                Some(topic.clone()),
            ),
        ),
        _ => None,
    }
}

/// One conversation of the remote service, as far as the client has been told
/// of it.
#[derive(Debug)]
pub struct Room {
    id: RoomID,
    canonical_alias: Option<String>,
    join_rules: Option<String>,
    members: Vec<UserID>,
    pending_events: Vec<RoomEvent>,
}

impl View for Room {
    type V = RoomView;

    closed spec fn view(&self) -> RoomView {
        RoomView {
            id: self.id@,
            canonical_alias: opt_text(self.canonical_alias),
            join_rules: opt_text(self.join_rules),
            members: users(self.members@),
            pending: room_events(self.pending_events@),
        }
    }
}

impl Room {
    /// A room that has just been heard of: unresolved, nobody in it, nothing
    /// waiting.
    pub fn new(id: RoomID) -> (room: Room)
        ensures
            room@ == RoomView::fresh(id@),
            room@.wf(),
    {
        let room = Room {
            id,
            canonical_alias: None,
            join_rules: None,
            members: Vec::new(),
            pending_events: Vec::new(),
        };
        assert(users(room.members@) =~= Seq::empty());
        assert(room_events(room.pending_events@) =~= Seq::empty());
        room
    }

    /// Replays the waiting events, oldest first, under the room's name.
    fn run_pending(&mut self) -> (out: Vec<Message>)
        requires
            old(self)@.canonical_alias is Some,
        ensures
            final(self)@ == old(self)@.drained(),
            messages(out@) == replayed(old(self)@.canonical_alias->0, old(self)@.pending),
    {
        let mut waiting: Vec<RoomEvent> = Vec::new();
        std::mem::swap(&mut self.pending_events, &mut waiting);
        let mut out: Vec<Message> = Vec::new();
        let ghost before = old(self)@;
        let ghost channel = before.canonical_alias->0;
        proof {
            assert(room_events(self.pending_events@) =~= Seq::empty());
            assert(before.pending.take(0) =~= Seq::empty());
            assert(messages(out@) =~= Seq::empty());
            assert(users(self.members@) =~= before.members + joined(before.pending.take(0)));
        }
        let mut i: usize = 0;
        while i < waiting.len()
            invariant
                i <= waiting.len(),
                room_events(waiting@) == before.pending,
                before.canonical_alias == Some(channel),
                self.id == old(self).id,
                self.canonical_alias == old(self).canonical_alias,
                opt_text(self.canonical_alias) == before.canonical_alias,
                self.join_rules == old(self).join_rules,
                self.pending_events@.len() == 0,
                users(self.members@) == before.members + joined(before.pending.take(i as int)),
                messages(out@) == replayed(channel, before.pending.take(i as int)),
            decreases waiting.len() - i,
        {
            let event = &waiting[i];
            proof {
                let next = before.pending.take(i + 1);
                assert(next.drop_last() =~= before.pending.take(i as int));
                assert(next.last() == event@);
            }
            let ghost sent = out@;
            let ghost inside = self.members@;
            match &self.canonical_alias {
                Some(alias) => {
                    match translate(alias, event) {
                        Some(message) => {
                            out.push(message);
                            assert(messages(out@) =~= messages(sent).push(message@));
                        },
                        None => {},
                    }
                },
                None => {},
            }
            match event {
                RoomEvent::Membership(user, action) => match action {
                    MembershipAction::Join => {
                        self.members.push(user.clone());
                        assert(users(self.members@) =~= users(inside).push(user@));
                    },
                    MembershipAction::Leave => {
                        self.members.push(user.clone());
                        assert(users(self.members@) =~= users(inside).push(user@));
                    },
                    _ => {},
                },
                _ => {},
            }
            assert(users(self.members@) =~= before.members + joined(
                before.pending.take(i + 1),
            ));
            i += 1;
        }
        proof {
            assert(before.pending.take(i as int) =~= before.pending);
            assert(room_events(self.pending_events@) =~= Seq::empty());
        }
        out
    }

    /// Takes a new canonical name. If the room had none, everything that
    /// waited is replayed under it.
    fn rename(&mut self, name: String) -> (out: Vec<Message>)
        ensures
            final(self)@ == old(self)@.named(name@),
            messages(out@) == old(self)@.naming(name@),
    {
        let was_empty = self.canonical_alias.is_none();
        self.canonical_alias = Some(name);
        if was_empty {
            self.run_pending()
        } else {
            let out: Vec<Message> = Vec::new();
            assert(messages(out@) =~= Seq::empty());
            out
        }
    }

    /// Handles a content event: translates it if the room's name is known,
    /// keeps it waiting if not. Any other event is dropped.
    pub fn handle_with_alias(&mut self, evt: RoomEvent) -> (out: Vec<Message>)
        ensures
            final(self)@ == old(self)@.delivered(evt@),
            messages(out@) == old(self)@.delivery(evt@),
    {
        let mut out: Vec<Message> = Vec::new();
        assert(messages(out@) =~= Seq::empty());
        if !has_translation(&evt) {
            return out;
        }
        let ghost inside = self.members@;
        let ghost waiting = self.pending_events@;
        match &self.canonical_alias {
            Some(alias) => {
                match translate(alias, &evt) {
                    Some(message) => {
                        out.push(message);
                        assert(messages(out@) =~= seq![message@]);
                    },
                    None => {},
                }
                match evt {
                    RoomEvent::Membership(user, _) => {
                        self.members.push(user);
                        assert(users(self.members@) =~= users(inside).push(user@));
                    },
                    _ => {},
                }
            },
            None => {
                self.pending_events.push(evt);
                assert(room_events(self.pending_events@) =~= room_events(waiting).push(evt@));
            },
        }
        out
    }

    /// Handles any event of this room and returns what it sends to the
    /// client, in emission order.
    ///
    /// A canonical name, or the first of a list of announced names if the room
    /// has none yet, resolves the room and replays what waited. An empty list
    /// of names resolves nothing. Join rules are remembered. Content events go
    /// to [`Room::handle_with_alias`]. Everything else is dropped.
    pub fn handle_event(&mut self, evt: RoomEvent) -> (out: Vec<Message>)
        ensures
            final(self)@ == old(self)@.step(evt@),
            messages(out@) == old(self)@.emitted(evt@),
            old(self)@.wf() ==> final(self)@.wf(),
    {
        proof {
            if old(self)@.wf() {
                lemma_step_keeps_wf(old(self)@, evt@);
            }
        }
        match evt {
            RoomEvent::CanonicalAlias(name) => self.rename(name),
            RoomEvent::Aliases(aliases) => {
                if self.canonical_alias.is_none() && aliases.len() > 0 {
                    self.rename(aliases[0].clone())
                } else {
                    let out: Vec<Message> = Vec::new();
                    assert(messages(out@) =~= Seq::empty());
                    out
                }
            },
            RoomEvent::JoinRules(rules) => {
                self.join_rules = Some(rules);
                let out: Vec<Message> = Vec::new();
                assert(messages(out@) =~= Seq::empty());
                out
            },
            other => self.handle_with_alias(other),
        }
    }

    /// The room's identifier.
    pub fn id(&self) -> (res: &RoomID)
        ensures
            res@ == self@.id,
    {
        &self.id
    }

    /// The room's canonical name, once it is known.
    pub fn canonical_alias(&self) -> (res: &Option<String>)
        ensures
            opt_text(*res) == self@.canonical_alias,
    {
        &self.canonical_alias
    }

    /// The room's join policy, once it has been announced.
    pub fn join_rules(&self) -> (res: &Option<String>)
        ensures
            opt_text(*res) == self@.join_rules,
    {
        &self.join_rules
    }

    /// Everybody whose joining or leaving the client has been told of.
    pub fn members(&self) -> (res: &Vec<UserID>)
        ensures
            users(res@) == self@.members,
    {
        &self.members
    }

    /// The events that wait for the room's name, oldest first.
    pub fn pending_events(&self) -> (res: &Vec<RoomEvent>)
        ensures
            room_events(res@) == self@.pending,
    {
        &self.pending_events
    }
}

/// Replaying nothing but content events translates each of them.
pub proof fn lemma_replayed_content(channel: Seq<char>, events: Seq<RoomEventView>)
    requires
        forall|i: int| 0 <= i < events.len() ==> is_content(#[trigger] events[i]),
    ensures
        replayed(channel, events).len() == events.len(),
        forall|i: int|
            0 <= i < events.len() ==> translation(channel, events[i]) == Some(
                #[trigger] replayed(channel, events)[i],
            ),
    decreases events.len(),
{
    if events.len() > 0 {
        lemma_replayed_content(channel, events.drop_last());
    }
}

/// No event takes a room out of the well-formed states.
pub proof fn lemma_step_keeps_wf(room: RoomView, event: RoomEventView)
    requires
        room.wf(),
    ensures
        room.step(event).wf(),
{
}

/// A run of events is handled the same whether it comes in one piece or in
/// two.
pub proof fn lemma_run_splits(room: RoomView, first: Seq<RoomEventView>, rest: Seq<RoomEventView>)
    ensures
        room.after(first + rest) == room.after(first).after(rest),
        room.output(first + rest) == room.output(first) + room.after(first).output(rest),
    decreases rest.len(),
{
    if rest.len() == 0 {
        assert(first + rest =~= first);
        assert(room.output(first) + Seq::<MessageView>::empty() =~= room.output(first));
    } else {
        lemma_run_splits(room, first, rest.drop_last());
        assert((first + rest).drop_last() =~= first + rest.drop_last());
        assert((first + rest).last() == rest.last());
        let middle = room.after(first);
        assert(room.output(first + rest) =~= room.output(first) + middle.output(rest));
    }
}

/// While a room has no canonical name, and the event at hand gives it none,
/// nothing is sent to the client. A content event is kept waiting behind the
/// earlier ones; any other event leaves the waiting events alone.
pub proof fn unresolved_room_is_silent(room: RoomView, event: RoomEventView)
    requires
        room.canonical_alias is None,
        room.step(event).canonical_alias is None,
    ensures
        room.emitted(event) == Seq::<MessageView>::empty(),
        is_content(event) ==> room.step(event).pending == room.pending.push(event),
        !is_content(event) ==> room.step(event).pending == room.pending,
{
}

/// A run of content events leaves a room without a name silent: all of them
/// wait, in arrival order, behind those that waited before, and nothing else
/// about the room changes.
pub proof fn unresolved_room_keeps_waiting(room: RoomView, events: Seq<RoomEventView>)
    requires
        room.canonical_alias is None,
        forall|i: int| 0 <= i < events.len() ==> is_content(#[trigger] events[i]),
    ensures
        room.output(events) == Seq::<MessageView>::empty(),
        room.after(events) == (RoomView { pending: room.pending + events, ..room }),
    decreases events.len(),
{
    if events.len() == 0 {
        assert(room.pending + events =~= room.pending);
    } else {
        let earlier = events.drop_last();
        unresolved_room_keeps_waiting(room, earlier);
        assert(is_content(events.last()));
        assert((room.pending + earlier).push(events.last()) =~= room.pending + events);
        assert(room.output(events) =~= Seq::<MessageView>::empty());
    }
}

/// When a room without a name is given one, every event that waited is
/// translated under that name, each exactly once and in arrival order, and
/// nothing waits any more.
pub proof fn resolution_replays_in_order(room: RoomView, name: Seq<char>)
    requires
        room.wf(),
        room.canonical_alias is None,
    ensures
        room.emitted(RoomEventView::CanonicalAlias(name)).len() == room.pending.len(),
        forall|i: int|
            0 <= i < room.pending.len() ==> translation(name, room.pending[i]) == Some(
                #[trigger] room.emitted(RoomEventView::CanonicalAlias(name))[i],
            ),
        room.step(RoomEventView::CanonicalAlias(name)).canonical_alias == Some(name),
        room.step(RoomEventView::CanonicalAlias(name)).pending.len() == 0,
        room.step(RoomEventView::CanonicalAlias(name)).members == room.members + joined(
            room.pending,
        ),
{
    lemma_replayed_content(name, room.pending);
}

/// A list of announced names resolves a room without a name exactly as its
/// first entry would as a canonical name. It leaves a room that has a name,
/// and a room that is given no name at all, as they are, and sends nothing.
pub proof fn announced_names_resolve_once(room: RoomView, names: Seq<Seq<char>>)
    ensures
        room.canonical_alias is None && names.len() > 0 ==> {
            &&& room.step(RoomEventView::Aliases(names)) == room.step(
                RoomEventView::CanonicalAlias(names[0]),
            )
            &&& room.emitted(RoomEventView::Aliases(names)) == room.emitted(
                RoomEventView::CanonicalAlias(names[0]),
            )
        },
        room.canonical_alias is Some || names.len() == 0 ==> {
            &&& room.step(RoomEventView::Aliases(names)) == room
            &&& room.emitted(RoomEventView::Aliases(names)) == Seq::<MessageView>::empty()
        },
{
}

/// Events that waited are translated before anything that arrives after the
/// name: a run of content events, then the name, then any further events
/// sends the replay of all that waited, followed by what the further events
/// send to the room as the replay left it.
pub proof fn resolution_precedes_new_events(
    room: RoomView,
    waiting: Seq<RoomEventView>,
    name: Seq<char>,
    later: Seq<RoomEventView>,
)
    requires
        room.wf(),
        room.canonical_alias is None,
        forall|i: int| 0 <= i < waiting.len() ==> is_content(#[trigger] waiting[i]),
    ensures
        room.output(waiting.push(RoomEventView::CanonicalAlias(name)) + later) == replayed(
            name,
            room.pending + waiting,
        ) + room.after(waiting.push(RoomEventView::CanonicalAlias(name))).output(later),
        room.after(waiting.push(RoomEventView::CanonicalAlias(name))).pending.len() == 0,
        room.after(waiting.push(RoomEventView::CanonicalAlias(name))).canonical_alias == Some(
            name,
        ),
{
    let naming = RoomEventView::CanonicalAlias(name);
    let run = waiting.push(naming);
    unresolved_room_keeps_waiting(room, waiting);
    assert(run.drop_last() =~= waiting);
    assert(run.last() == naming);
    assert(room.output(run) =~= replayed(name, room.pending + waiting));
    lemma_run_splits(room, run, later);
}

/// Once a room has a name it keeps one, nothing waits in it ever again, and
/// every content event is translated at once, under the name the room has at
/// that moment.
pub proof fn resolved_room_translates_at_once(room: RoomView, event: RoomEventView)
    requires
        room.wf(),
        room.canonical_alias is Some,
    ensures
        room.step(event).canonical_alias is Some,
        room.step(event).pending.len() == 0,
        is_content(event) ==> translation(room.canonical_alias->0, event) is Some
            && room.emitted(event) == seq![translation(room.canonical_alias->0, event)->0],
        !is_content(event) ==> room.emitted(event) == Seq::<MessageView>::empty(),
{
}

/// A room with a name keeps it for life, and nothing ever waits in it: after
/// any run of events it still has a name and no waiting events.
pub proof fn resolved_room_stays_resolved(room: RoomView, events: Seq<RoomEventView>)
    requires
        room.wf(),
        room.canonical_alias is Some,
    ensures
        room.after(events).wf(),
        room.after(events).canonical_alias is Some,
        room.after(events).pending.len() == 0,
    decreases events.len(),
{
    if events.len() > 0 {
        resolved_room_stays_resolved(room, events.drop_last());
        resolved_room_translates_at_once(room.after(events.drop_last()), events.last());
        lemma_step_keeps_wf(room.after(events.drop_last()), events.last());
    }
}

/// A join becomes one `Join` message and a leave one `Part` message, addressed
/// to the room's canonical name and sent in the name of
/// `<nickname>!<nickname>@<homeserver>`. Either way the user is added to the
/// member list.
pub proof fn membership_translates_one_to_one(
    room: RoomView,
    user: UserIdView,
    action: MembershipAction,
)
    requires
        room.canonical_alias is Some,
        action == MembershipAction::Join || action == MembershipAction::Leave,
    ensures
        room.emitted(RoomEventView::Membership(user, action)) == seq![
            MessageView {
                prefix: Some(
                    user.nickname + seq!['!'] + user.nickname + seq!['@'] + user.homeserver,
                ),
                command: if action == MembershipAction::Join {
                    Command::Join
                } else {
                    Command::Part
                },
                args: seq![room.canonical_alias->0],
                suffix: None,
            },
        ],
        room.step(RoomEventView::Membership(user, action)).members == room.members.push(user),
{
}

/// Any other change of membership sends nothing, is not kept waiting and
/// changes nothing, whether the room has a name or not.
pub proof fn other_membership_is_dropped(room: RoomView, user: UserIdView, action: MembershipAction)
    requires
        action != MembershipAction::Join,
        action != MembershipAction::Leave,
    ensures
        room.emitted(RoomEventView::Membership(user, action)) == Seq::<MessageView>::empty(),
        room.step(RoomEventView::Membership(user, action)) == room,
{
}

/// A message becomes one `Privmsg` and a topic change one `Topic` message,
/// addressed to the room's canonical name, sent in the name of
/// `<nickname>!<nickname>@<homeserver>`, with the text or the topic as body.
pub proof fn content_translates_one_to_one(room: RoomView, user: UserIdView, body: Seq<char>)
    requires
        room.canonical_alias is Some,
    ensures
        room.emitted(RoomEventView::Message(user, body)) == seq![
            MessageView {
                prefix: Some(
                    user.nickname + seq!['!'] + user.nickname + seq!['@'] + user.homeserver,
                ),
                command: Command::Privmsg,
                args: seq![room.canonical_alias->0],
                suffix: Some(body),
            },
        ],
        room.emitted(RoomEventView::Topic(user, body)) == seq![
            MessageView {
                prefix: Some(
                    user.nickname + seq!['!'] + user.nickname + seq!['@'] + user.homeserver,
                ),
                command: Command::Topic,
                args: seq![room.canonical_alias->0],
                suffix: Some(body),
            },
        ],
{
}

} // verus!
