//! Units of the client-facing protocol, as the engine reads and produces them.

use vstd::prelude::*;
use crate::model::{opt_text, texts};

verus! {

/// The commands the engine tells apart. Everything else is `Unknown`.
#[derive(Clone, Copy, Debug, PartialEq, Eq, Hash)]
pub enum Command {
    Pass,
    Nick,
    User,
    Join,
    Part,
    Privmsg,
    Topic,
    Ping,
    Pong,
    Quit,
    Unknown,
}

/// Mathematical value of a [`Message`].
pub struct MessageView {
    pub prefix: Option<Seq<char>>,
    pub command: Command,
    pub args: Seq<Seq<char>>,
    pub suffix: Option<Seq<char>>,
}

/// One protocol unit: who it is from, what it asks, its arguments and its
/// trailing text.
#[derive(Debug, PartialEq, Eq)]
pub struct Message {
    pub prefix: Option<String>,
    pub command: Command,
    pub args: Vec<String>,
    pub suffix: Option<String>,
}

impl View for Message {
    type V = MessageView;

    open spec fn view(&self) -> MessageView {
        MessageView {
            prefix: opt_text(self.prefix),
            command: self.command,
            args: texts(self.args@),
            suffix: opt_text(self.suffix),
        }
    }
}

impl Clone for Message {
    fn clone(&self) -> (res: Self)
        ensures
            res@ == self@,
    {
        let prefix = match &self.prefix {
            Some(sender) => Some(sender.clone()),
            None => None,
        };
        let suffix = match &self.suffix {
            Some(body) => Some(body.clone()),
            None => None,
        };
        let args = self.args.clone();
        assert(texts(args@) =~= texts(self.args@));
        Message { prefix, command: self.command, args, suffix }
    }
}

/// Values of a sequence of messages.
pub open spec fn messages(out: Seq<Message>) -> Seq<MessageView> {
    out.map_values(|m: Message| m@)
}

/// The message that tells the client what `sender` did in `channel`.
pub open spec fn outbound(
    sender: Seq<char>,
    command: Command,
    channel: Seq<char>,
    body: Option<Seq<char>>,
) -> MessageView {
    MessageView { prefix: Some(sender), command, args: seq![channel], suffix: body }
}

impl Message {
    /// Builds the message that tells the client what `sender` did in `channel`.
    pub fn outbound(sender: String, command: Command, channel: String, body: Option<String>) -> (res:
        Message)
        ensures
            res@ == outbound(sender@, command, channel@, opt_text(body)),
    {
        let mut args: Vec<String> = Vec::new();
        args.push(channel);
        assert(texts(args@) =~= seq![channel@]);
        Message { prefix: Some(sender), command, args, suffix: body }
    }
}

} // verus!
