use ircbridge::action::{deliver, Action, BridgeError};
use ircbridge::bridge::{Bridge, Event};
use ircbridge::events::{EventData, MembershipAction, RemoteEvent, RoomEvent};
use ircbridge::model::{EventID, RoomID, UserID};
use ircbridge::protocol::{Command, Message};

fn user(nickname: &str) -> UserID {
    UserID { nickname: nickname.to_string(), homeserver: "example.org".to_string() }
}

fn room_id(text: &str) -> RoomID {
    RoomID { id: text.to_string() }
}

fn event_id(text: &str) -> EventID {
    EventID { id: text.to_string() }
}

fn in_room(id: Option<&str>, room: &str, event: RoomEvent) -> RemoteEvent {
    RemoteEvent { id: id.map(event_id), data: EventData::Room(room_id(room), event) }
}

fn said(id: Option<&str>, room: &str, nickname: &str, text: &str) -> RemoteEvent {
    in_room(id, room, RoomEvent::Message(user(nickname), text.to_string()))
}

fn named(room: &str, name: &str) -> RemoteEvent {
    in_room(None, room, RoomEvent::CanonicalAlias(name.to_string()))
}

fn command(command: Command, args: &[&str], suffix: Option<&str>) -> Message {
    Message {
        prefix: None,
        command,
        args: args.iter().map(|a| a.to_string()).collect(),
        suffix: suffix.map(|s| s.to_string()),
    }
}

fn privmsg(nickname: &str, channel: &str, text: &str) -> Message {
    Message {
        prefix: Some(format!("{}!{}@example.org", nickname, nickname)),
        command: Command::Privmsg,
        args: vec![channel.to_string()],
        suffix: Some(text.to_string()),
    }
}

#[test]
fn new_bridge_is_empty() {
    let bridge = Bridge::new();
    assert!(bridge.rooms().is_empty());
    assert_eq!(bridge.seen_events().len(), 0);
}

#[test]
fn same_event_id_delivered_twice_translates_once() {
    let mut bridge = Bridge::new();
    assert!(bridge.handle_matrix(named("!a:example.org", "#general")).is_empty());

    let first_batch = vec![said(Some("$1:example.org"), "!a:example.org", "alice", "hello")];
    let second_batch = vec![said(Some("$1:example.org"), "!a:example.org", "alice", "hello")];

    let mut written = Vec::new();
    for event in first_batch {
        written.extend(bridge.handle_matrix(event));
    }
    assert_eq!(written, vec![privmsg("alice", "#general", "hello")]);

    let mut again = Vec::new();
    for event in second_batch {
        again.extend(bridge.handle_matrix(event));
    }
    assert!(again.is_empty());
    assert_eq!(bridge.seen_events().len(), 1);
}

#[test]
fn duplicate_is_dropped_even_with_another_payload() {
    let mut bridge = Bridge::new();
    bridge.handle_matrix(named("!a:example.org", "#general"));
    assert_eq!(
        bridge.handle_matrix(said(Some("$1:example.org"), "!a:example.org", "alice", "one")).len(),
        1
    );
    assert_eq!(
        bridge.handle_matrix(said(Some("$2:example.org"), "!a:example.org", "alice", "two")).len(),
        1
    );
    assert!(bridge
        .handle_matrix(said(Some("$1:example.org"), "!b:example.org", "bob", "other"))
        .is_empty());
    assert_eq!(bridge.rooms().len(), 1);
    assert_eq!(bridge.seen_events().len(), 2);
}

#[test]
fn duplicate_of_buffered_event_is_not_buffered_twice() {
    let mut bridge = Bridge::new();
    assert!(bridge
        .handle_matrix(said(Some("$1:example.org"), "!a:example.org", "alice", "hello"))
        .is_empty());
    assert!(bridge
        .handle_matrix(said(Some("$1:example.org"), "!a:example.org", "alice", "hello"))
        .is_empty());
    assert_eq!(bridge.rooms()[0].pending_events().len(), 1);
    let out = bridge.handle_matrix(named("!a:example.org", "#general"));
    assert_eq!(out, vec![privmsg("alice", "#general", "hello")]);
}

#[test]
fn events_without_identifier_bypass_the_record() {
    let mut bridge = Bridge::new();
    bridge.handle_matrix(named("!a:example.org", "#general"));
    assert_eq!(bridge.handle_matrix(said(None, "!a:example.org", "alice", "hello")).len(), 1);
    assert_eq!(bridge.handle_matrix(said(None, "!a:example.org", "alice", "hello")).len(), 1);
    assert_eq!(bridge.seen_events().len(), 0);
}

#[test]
fn events_outside_rooms_send_nothing_but_are_recorded() {
    let mut bridge = Bridge::new();
    let typing = RemoteEvent { id: None, data: EventData::Typing(room_id("!a:example.org")) };
    let presence =
        RemoteEvent { id: Some(event_id("$p:example.org")), data: EventData::Presence(user("alice")) };
    let other = RemoteEvent {
        id: Some(event_id("$o:example.org")),
        data: EventData::Unknown("m.receipt".to_string()),
    };
    assert!(bridge.handle_matrix(typing).is_empty());
    assert!(bridge.handle_matrix(presence).is_empty());
    assert!(bridge.handle_matrix(other).is_empty());
    assert!(bridge.rooms().is_empty());
    assert_eq!(bridge.seen_events().len(), 2);
    assert!(bridge.seen_events().has_seen(&event_id("$p:example.org")));
}

#[test]
fn rooms_are_created_on_first_reference_only() {
    let mut bridge = Bridge::new();
    bridge.handle_matrix(in_room(None, "!a:example.org", RoomEvent::Create));
    bridge.handle_matrix(in_room(None, "!b:example.org", RoomEvent::Create));
    bridge.handle_matrix(in_room(None, "!a:example.org", RoomEvent::PowerLevels));
    assert_eq!(bridge.rooms().len(), 2);
    assert_eq!(bridge.rooms()[0].id(), &room_id("!a:example.org"));
    assert_eq!(bridge.rooms()[1].id(), &room_id("!b:example.org"));
}

#[test]
fn events_are_routed_to_their_own_room() {
    let mut bridge = Bridge::new();
    bridge.handle_matrix(named("!a:example.org", "#a"));
    bridge.handle_matrix(said(None, "!b:example.org", "bob", "waits"));
    let out = bridge.handle_matrix(said(None, "!a:example.org", "alice", "goes"));
    assert_eq!(out, vec![privmsg("alice", "#a", "goes")]);
    let out = bridge.handle_matrix(named("!b:example.org", "#b"));
    assert_eq!(out, vec![privmsg("bob", "#b", "waits")]);
}

#[test]
fn room_from_matrix_finds_or_creates() {
    let mut bridge = Bridge::new();
    {
        let room = bridge.room_from_matrix(&room_id("!a:example.org"));
        assert_eq!(room.id(), &room_id("!a:example.org"));
        assert_eq!(room.canonical_alias(), &None);
        room.handle_event(RoomEvent::CanonicalAlias("#general".to_string()));
    }
    assert_eq!(bridge.rooms().len(), 1);
    {
        let room = bridge.room_from_matrix(&room_id("!a:example.org"));
        assert_eq!(room.canonical_alias(), &Some("#general".to_string()));
    }
    assert_eq!(bridge.rooms().len(), 1);
    bridge.room_from_matrix(&room_id("!b:example.org"));
    assert_eq!(bridge.rooms().len(), 2);
}

#[test]
fn room_from_irc_finds_resolved_rooms_only() {
    let mut bridge = Bridge::new();
    bridge.handle_matrix(said(None, "!a:example.org", "alice", "hello"));
    assert!(bridge.room_from_irc(&"#general".to_string()).is_none());
    bridge.handle_matrix(named("!a:example.org", "#general"));
    bridge.handle_matrix(named("!b:example.org", "#general"));
    bridge.handle_matrix(named("!c:example.org", "#other"));
    {
        let found = bridge.room_from_irc(&"#general".to_string());
        assert_eq!(found.map(|room| room.id().clone()), Some(room_id("!a:example.org")));
    }
    {
        let found = bridge.room_from_irc(&"#other".to_string());
        assert_eq!(found.map(|room| room.id().clone()), Some(room_id("!c:example.org")));
    }
    assert!(bridge.room_from_irc(&"#nowhere".to_string()).is_none());
    assert_eq!(bridge.rooms().len(), 3);
}

#[test]
fn privmsg_to_unknown_channel_is_dropped() {
    let mut bridge = Bridge::new();
    bridge.handle_matrix(named("!a:example.org", "#general"));
    bridge.handle_matrix(said(None, "!b:example.org", "bob", "unresolved"));
    let out = bridge.handle_client(command(Command::Privmsg, &["#nowhere"], Some("hello")));
    assert_eq!(out, Ok(vec![]));
    assert_eq!(bridge.rooms().len(), 2);
    assert_eq!(bridge.seen_events().len(), 0);
    assert_eq!(bridge.rooms()[1].pending_events().len(), 1);
}

#[test]
fn privmsg_to_resolved_channel_is_sent_to_its_room() {
    let mut bridge = Bridge::new();
    bridge.handle_matrix(named("!a:example.org", "#general"));
    let out = bridge.handle_client(command(Command::Privmsg, &["#general"], Some("hello")));
    assert_eq!(out, Ok(vec![Action::Send(room_id("!a:example.org"), "hello".to_string())]));
}

#[test]
fn privmsg_without_target_or_text_is_dropped() {
    let mut bridge = Bridge::new();
    bridge.handle_matrix(named("!a:example.org", "#general"));
    assert_eq!(bridge.handle_client(command(Command::Privmsg, &[], Some("hello"))), Ok(vec![]));
    assert_eq!(bridge.handle_client(command(Command::Privmsg, &["#general"], None)), Ok(vec![]));
}

#[test]
fn own_echo_is_not_translated() {
    let mut bridge = Bridge::new();
    bridge.handle_matrix(named("!a:example.org", "#general"));
    bridge.handle_client(command(Command::Privmsg, &["#general"], Some("hello"))).unwrap();
    bridge.record(event_id("$sent:example.org"));
    assert!(bridge.seen_events().has_seen(&event_id("$sent:example.org")));
    let echo = said(Some("$sent:example.org"), "!a:example.org", "me", "hello");
    assert!(bridge.handle_matrix(echo).is_empty());
}

#[test]
fn pass_nick_user_triggers_one_login_sequence() {
    let mut bridge = Bridge::new();
    let mut all = Vec::new();
    all.extend(bridge.handle_client(command(Command::Pass, &["secret"], None)).unwrap());
    all.extend(bridge.handle_client(command(Command::Nick, &["ally"], None)).unwrap());
    all.extend(
        bridge.handle_client(command(Command::User, &["alice", "0", "*"], Some("Alice"))).unwrap(),
    );
    assert_eq!(
        all,
        vec![
            Action::Nickname("ally".to_string()),
            Action::Login("alice".to_string(), "secret".to_string()),
            Action::Sync,
            Action::Welcome("alice".to_string()),
        ]
    );
    let started = bridge.start_matrix(vec![]);
    assert_eq!(started, vec![Action::Poll]);

    let logins = all.iter().filter(|a| matches!(a, Action::Login(_, _))).count();
    let syncs = all.iter().filter(|a| matches!(a, Action::Sync)).count();
    let welcomes = all.iter().filter(|a| matches!(a, Action::Welcome(_))).count();
    let polls = started.iter().filter(|a| matches!(a, Action::Poll)).count();
    assert_eq!((logins, syncs, welcomes, polls), (1, 1, 1, 1));
}

#[test]
fn credentials_lose_surrounding_white_space() {
    let mut bridge = Bridge::new();
    bridge.handle_client(command(Command::Pass, &[" secret\t"], None)).unwrap();
    let out = bridge.handle_client(command(Command::User, &["  alice \r\n"], None));
    assert_eq!(
        out,
        Ok(vec![
            Action::Login("alice".to_string(), "secret".to_string()),
            Action::Sync,
            Action::Welcome("alice".to_string()),
        ])
    );
}

#[test]
fn inner_white_space_of_credentials_is_kept() {
    let mut bridge = Bridge::new();
    bridge.handle_client(command(Command::Pass, &[" pass word "], None)).unwrap();
    let out = bridge.handle_client(command(Command::User, &["al ice"], None)).unwrap();
    assert_eq!(out[0], Action::Login("al ice".to_string(), "pass word".to_string()));
}

#[test]
fn user_without_password_is_missing_credentials() {
    let mut bridge = Bridge::new();
    let out = bridge.handle_client(command(Command::User, &["alice"], None));
    assert_eq!(out, Err(BridgeError::MissingCredentials));
}

#[test]
fn user_without_name_is_missing_credentials() {
    let mut bridge = Bridge::new();
    bridge.handle_client(command(Command::Pass, &["secret"], None)).unwrap();
    let out = bridge.handle_client(command(Command::User, &[], None));
    assert_eq!(out, Err(BridgeError::MissingCredentials));
}

#[test]
fn login_uses_the_password_up() {
    let mut bridge = Bridge::new();
    bridge.handle_client(command(Command::Pass, &["secret"], None)).unwrap();
    assert!(bridge.handle_client(command(Command::User, &["alice"], None)).is_ok());
    assert_eq!(
        bridge.handle_client(command(Command::User, &["alice"], None)),
        Err(BridgeError::MissingCredentials)
    );
}

#[test]
fn later_password_replaces_earlier_one() {
    let mut bridge = Bridge::new();
    bridge.handle_client(command(Command::Pass, &["first"], None)).unwrap();
    bridge.handle_client(command(Command::Pass, &["second"], None)).unwrap();
    bridge.handle_client(command(Command::Pass, &[], None)).unwrap();
    let out = bridge.handle_client(command(Command::User, &["alice"], None)).unwrap();
    assert_eq!(out[0], Action::Login("alice".to_string(), "second".to_string()));
}

#[test]
fn login_sequence_is_login_sync_welcome() {
    assert_eq!(
        Action::login_sequence("alice".to_string(), "secret".to_string()),
        vec![
            Action::Login("alice".to_string(), "secret".to_string()),
            Action::Sync,
            Action::Welcome("alice".to_string()),
        ]
    );
}

#[test]
fn nick_prefers_suffix_over_argument() {
    let mut bridge = Bridge::new();
    assert_eq!(
        bridge.handle_client(command(Command::Nick, &["arg"], Some("suffix"))),
        Ok(vec![Action::Nickname("suffix".to_string())])
    );
    assert_eq!(
        bridge.handle_client(command(Command::Nick, &["arg"], None)),
        Ok(vec![Action::Nickname("arg".to_string())])
    );
    assert_eq!(bridge.handle_client(command(Command::Nick, &[], None)), Ok(vec![]));
}

#[test]
fn join_ping_quit_ask_for_one_action_each() {
    let mut bridge = Bridge::new();
    assert_eq!(
        bridge.handle_client(command(Command::Join, &["#general", "key"], None)),
        Ok(vec![Action::Join("#general".to_string())])
    );
    assert_eq!(bridge.handle_client(command(Command::Join, &[], None)), Ok(vec![]));
    assert_eq!(bridge.handle_client(command(Command::Ping, &[], None)), Ok(vec![Action::Pong]));
    assert_eq!(
        bridge.handle_client(command(Command::Quit, &[], Some("bye"))),
        Ok(vec![Action::Quit])
    );
}

#[test]
fn unrecognized_commands_are_ignored() {
    let mut bridge = Bridge::new();
    for other in [Command::Unknown, Command::Part, Command::Topic, Command::Pong] {
        assert_eq!(bridge.handle_client(command(other, &["#general"], Some("x"))), Ok(vec![]));
    }
    assert!(bridge.rooms().is_empty());
    assert_eq!(bridge.seen_events().len(), 0);
}

#[test]
fn end_of_batch_starts_the_next_poll() {
    let mut bridge = Bridge::new();
    assert_eq!(bridge.notify(Event::EndPoll), vec![Action::Poll]);
    assert!(bridge.rooms().is_empty());
}

#[test]
fn notified_event_is_delivered() {
    let mut bridge = Bridge::new();
    assert!(bridge.notify(Event::Matrix(named("!a:example.org", "#general"))).is_empty());
    let out =
        bridge.notify(Event::Matrix(said(Some("$1:example.org"), "!a:example.org", "alice", "hi")));
    assert_eq!(out, vec![Action::Deliver(privmsg("alice", "#general", "hi"))]);
    let out =
        bridge.notify(Event::Matrix(said(Some("$1:example.org"), "!a:example.org", "alice", "hi")));
    assert!(out.is_empty());
}

#[test]
fn poll_batch_is_forwarded_in_order_then_ended() {
    let first = said(Some("$1:example.org"), "!a:example.org", "alice", "one");
    let second = said(Some("$2:example.org"), "!a:example.org", "bob", "two");
    let out = Bridge::poll_matrix(vec![first.clone(), second.clone()]);
    assert_eq!(out, vec![Event::Matrix(first), Event::Matrix(second), Event::EndPoll]);
    assert_eq!(Bridge::poll_matrix(vec![]), vec![Event::EndPoll]);
}

#[test]
fn snapshot_is_handled_in_order_before_the_first_poll() {
    let mut bridge = Bridge::new();
    let snapshot = vec![
        in_room(
            Some("$1:example.org"),
            "!a:example.org",
            RoomEvent::Membership(user("alice"), MembershipAction::Join),
        ),
        said(Some("$2:example.org"), "!a:example.org", "alice", "hello"),
        in_room(Some("$3:example.org"), "!a:example.org", RoomEvent::CanonicalAlias("#general".to_string())),
        said(Some("$4:example.org"), "!a:example.org", "bob", "hi"),
        said(Some("$2:example.org"), "!a:example.org", "alice", "hello"),
    ];
    let out = bridge.start_matrix(snapshot);
    assert_eq!(
        out,
        vec![
            Action::Deliver(Message {
                prefix: Some("alice!alice@example.org".to_string()),
                command: Command::Join,
                args: vec!["#general".to_string()],
                suffix: None,
            }),
            Action::Deliver(privmsg("alice", "#general", "hello")),
            Action::Deliver(privmsg("bob", "#general", "hi")),
            Action::Poll,
        ]
    );
    assert_eq!(bridge.seen_events().len(), 4);
    assert_eq!(bridge.rooms()[0].members(), &vec![user("alice")]);
}

#[test]
fn deliver_wraps_each_message_in_order() {
    let out = deliver(vec![privmsg("alice", "#a", "one"), privmsg("bob", "#b", "two")]);
    assert_eq!(
        out,
        vec![
            Action::Deliver(privmsg("alice", "#a", "one")),
            Action::Deliver(privmsg("bob", "#b", "two")),
        ]
    );
    assert!(deliver(vec![]).is_empty());
}
