//! What the engine asks of whoever owns the connections.

use vstd::prelude::*;
use crate::model::RoomID;
use crate::protocol::{messages, Message, MessageView};

verus! {

/// What the reactor's owner has to do next. The engine decides; the owner
/// talks to the client and to the remote service.
#[derive(Debug, PartialEq, Eq)]
pub enum Action {
    /// Log in to the remote service with this user name and password.
    Login(String, String),
    /// Fetch the initial snapshot and hand it to [`Bridge::start_matrix`].
    Sync,
    /// Start one poll cycle.
    Poll,
    /// Acknowledge the login to the client under this name.
    Welcome(String),
    /// The client goes by this nickname from now on.
    Nickname(String),
    /// Join this channel on the remote service.
    Join(String),
    /// Answer the client's ping.
    Pong,
    /// Say this text in this room, and hand the identifier that comes back to
    /// [`Bridge::record`].
    Send(RoomID, String),
    /// Write this message to the client.
    Deliver(Message),
    /// Stop reading the client's commands.
    Quit,
}

/// Mathematical value of an [`Action`].
pub enum ActionView {
    Login(Seq<char>, Seq<char>),
    Sync,
    Poll,
    Welcome(Seq<char>),
    Nickname(Seq<char>),
    Join(Seq<char>),
    Pong,
    Send(Seq<char>, Seq<char>),
    Deliver(MessageView),
    Quit,
}

impl View for Action {
    type V = ActionView;

    open spec fn view(&self) -> ActionView {
        match *self {
            Action::Login(username, password) => ActionView::Login(username@, password@),
            Action::Sync => ActionView::Sync,
            Action::Poll => ActionView::Poll,
            Action::Welcome(name) => ActionView::Welcome(name@),
            Action::Nickname(name) => ActionView::Nickname(name@),
            Action::Join(channel) => ActionView::Join(channel@),
            Action::Pong => ActionView::Pong,
            Action::Send(room, text) => ActionView::Send(room@, text@),
            Action::Deliver(message) => ActionView::Deliver(message@),
            Action::Quit => ActionView::Quit,
        }
    }
}

/// Values of a sequence of actions.
pub open spec fn actions(out: Seq<Action>) -> Seq<ActionView> {
    out.map_values(|a: Action| a@)
}

/// The actions that write `out` to the client, in order.
pub open spec fn deliveries(out: Seq<MessageView>) -> Seq<ActionView> {
    out.map_values(|m: MessageView| ActionView::Deliver(m))
}

impl Clone for Action {
    fn clone(&self) -> (res: Self)
        ensures
            res@ == self@,
    {
        match self {
            Action::Login(username, password) => Action::Login(username.clone(), password.clone()),
            Action::Sync => Action::Sync,
            Action::Poll => Action::Poll,
            Action::Welcome(name) => Action::Welcome(name.clone()),
            Action::Nickname(name) => Action::Nickname(name.clone()),
            Action::Join(channel) => Action::Join(channel.clone()),
            Action::Pong => Action::Pong,
            Action::Send(room, text) => Action::Send(room.clone(), text.clone()),
            Action::Deliver(message) => Action::Deliver(message.clone()),
            Action::Quit => Action::Quit,
        }
    }
}

/// Why a command of the client could not be carried out.
#[derive(Clone, Copy, Debug, PartialEq, Eq)]
pub enum BridgeError {
    /// A login was asked for without a user name or without a password.
    MissingCredentials,
}

/// What a login with these credentials asks of the reactor's owner: log in,
/// fetch the snapshot, then welcome the client.
pub open spec fn login_sequence(username: Seq<char>, password: Seq<char>) -> Seq<ActionView> {
    seq![ActionView::Login(username, password), ActionView::Sync, ActionView::Welcome(username)]
}

/// Value of what handling a command returns.
pub open spec fn outcome(res: Result<Vec<Action>, BridgeError>) -> Result<
    Seq<ActionView>,
    BridgeError,
> {
    match res {
        Ok(out) => Ok(actions(out@)),
        Err(e) => Err(e),
    }
}

impl Action {
    /// What a login asks of the reactor's owner, in order: log in with the
    /// credentials, fetch the snapshot, welcome the client under the user
    /// name.
    pub fn login_sequence(username: String, password: String) -> (out: Vec<Action>)
        ensures
            actions(out@) == login_sequence(username@, password@),
    {
        let mut out: Vec<Action> = Vec::new();
        out.push(Action::Login(username.clone(), password));
        out.push(Action::Sync);
        out.push(Action::Welcome(username));
        assert(actions(out@) =~= login_sequence(username@, password@));
        out
    }
}

/// The actions that write `out` to the client, in order.
pub fn deliver(out: Vec<Message>) -> (res: Vec<Action>)
    ensures
        actions(res@) == deliveries(messages(out@)),
{
    let ghost wrap = |m: MessageView| ActionView::Deliver(m);
    let ghost written = messages(out@);
    let mut res: Vec<Action> = Vec::new();
    assert(actions(res@) =~= written.take(0).map_values(wrap));
    for message in it: out
        invariant
            it.seq() == out@,
            written == messages(out@),
            wrap == (|m: MessageView| ActionView::Deliver(m)),
            actions(res@) == written.take(it.index() as int).map_values(wrap),
    {
        let ghost sent = res@;
        res.push(Action::Deliver(message));
        assert(actions(res@) =~= actions(sent).push(ActionView::Deliver(message@)));
        assert(written.take(it.index() + 1).map_values(wrap) =~= written.take(
            it.index() as int,
        ).map_values(wrap).push(wrap(message@)));
    }
    assert(written.take(written.len() as int) =~= written);
    res
}

} // verus!
