//! Identifiers handed out by the remote service.
//!
//! The engine never looks inside a room or event identifier: it only compares
//! them. Of a user it reads the two parts that make up the sender identity
//! shown to the client.

use vstd::prelude::*;
use vstd::string::StringExecFns;

verus! {

/// Mathematical value of a [`UserID`].
pub struct UserIdView {
    pub nickname: Seq<char>,
    pub homeserver: Seq<char>,
}

/// A user of the remote service.
#[derive(Debug, Hash)]
pub struct UserID {
    pub nickname: String,
    pub homeserver: String,
}

/// A room of the remote service. Its view is the identifier's text.
#[derive(Debug, Hash)]
pub struct RoomID {
    pub id: String,
}

/// An event of the remote service. Its view is the identifier's text.
#[derive(Debug, Hash)]
pub struct EventID {
    pub id: String,
}

impl View for UserID {
    type V = UserIdView;

    open spec fn view(&self) -> UserIdView {
        UserIdView { nickname: self.nickname@, homeserver: self.homeserver@ }
    }
}

impl View for RoomID {
    type V = Seq<char>;

    open spec fn view(&self) -> Seq<char> {
        self.id@
    }
}

impl View for EventID {
    type V = Seq<char>;

    open spec fn view(&self) -> Seq<char> {
        self.id@
    }
}

/// The identity under which a remote user appears to the client:
/// `<nickname>!<nickname>@<homeserver>`.
pub open spec fn sender_identity(user: UserIdView) -> Seq<char> {
    user.nickname + seq!['!'] + user.nickname + seq!['@'] + user.homeserver
}

/// Values of a sequence of strings.
pub open spec fn texts(strings: Seq<String>) -> Seq<Seq<char>> {
    strings.map_values(|s: String| s@)
}

/// Values of a sequence of users.
pub open spec fn users(members: Seq<UserID>) -> Seq<UserIdView> {
    members.map_values(|u: UserID| u@)
}

/// Values of a sequence of event identifiers.
pub open spec fn event_ids(ids: Seq<EventID>) -> Seq<Seq<char>> {
    ids.map_values(|e: EventID| e@)
}

/// Value of an optional string.
pub open spec fn opt_text(s: Option<String>) -> Option<Seq<char>> {
    match s {
        Some(t) => Some(t@),
        None => None,
    }
}

impl Clone for UserID {
    fn clone(&self) -> (res: Self)
        ensures
            res == *self,
    {
        UserID { nickname: self.nickname.clone(), homeserver: self.homeserver.clone() }
    }
}

impl PartialEq for UserID {
    fn eq(&self, other: &Self) -> (res: bool) {
        self.nickname == other.nickname && self.homeserver == other.homeserver
    }
}

impl vstd::std_specs::cmp::PartialEqSpecImpl for UserID {
    open spec fn obeys_eq_spec() -> bool {
        true
    }

    open spec fn eq_spec(&self, other: &Self) -> bool {
        self.nickname@ == other.nickname@ && self.homeserver@ == other.homeserver@
    }
}

impl Eq for UserID {

}

impl Clone for RoomID {
    fn clone(&self) -> (res: Self)
        ensures
            res == *self,
    {
        RoomID { id: self.id.clone() }
    }
}

impl PartialEq for RoomID {
    fn eq(&self, other: &Self) -> (res: bool) {
        self.id == other.id
    }
}

impl vstd::std_specs::cmp::PartialEqSpecImpl for RoomID {
    open spec fn obeys_eq_spec() -> bool {
        true
    }

    open spec fn eq_spec(&self, other: &Self) -> bool {
        self.id@ == other.id@
    }
}

impl Eq for RoomID {

}

impl Clone for EventID {
    fn clone(&self) -> (res: Self)
        ensures
            res == *self,
    {
        EventID { id: self.id.clone() }
    }
}

impl PartialEq for EventID {
    fn eq(&self, other: &Self) -> (res: bool) {
        self.id == other.id
    }
}

impl vstd::std_specs::cmp::PartialEqSpecImpl for EventID {
    open spec fn obeys_eq_spec() -> bool {
        true
    }

    open spec fn eq_spec(&self, other: &Self) -> bool {
        self.id@ == other.id@
    }
}

impl Eq for EventID {

}

impl UserID {
    /// Builds the sender identity of this user.
    pub fn identity(&self) -> (res: String)
        ensures
            res@ == sender_identity(self@),
    {
        proof {
            reveal_strlit("!");
            reveal_strlit("@");
            assert("!"@ =~= seq!['!']);
            assert("@"@ =~= seq!['@']);
        }
        let mut res = self.nickname.clone();
        res.append("!");
        res.append(self.nickname.as_str());
        res.append("@");
        res.append(self.homeserver.as_str());
        res
    }
}

} // verus!
