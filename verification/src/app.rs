//! The client's own state: channels and their messages, and what it sends
//! to register with a server.

use vstd::prelude::*;

use crate::message::nick::NickView;
use crate::message::user::UserView;
use crate::message::{CommandView, Message, MessageView, Nick, Source, User};

verus! {

/// A message received on a channel.
#[derive(Debug)]
pub struct ChannelMessage {
    pub source: Source,
    pub data: String,
}

/// A channel and the messages received on it.
#[derive(Debug)]
pub struct Channel {
    pub name: String,
    pub messages: Vec<ChannelMessage>,
}

/// An error of the client.
#[derive(Debug)]
pub enum AppError {
    RegisterError(String),
}

/// The model of an error of the client.
pub enum AppErrorView {
    RegisterError(Seq<char>),
}

impl View for AppError {
    type V = AppErrorView;

    open spec fn view(&self) -> AppErrorView {
        match self {
            AppError::RegisterError(a) => AppErrorView::RegisterError(a@),
        }
    }
}

/// The text of an error of the client.
pub open spec fn app_error_text(e: AppErrorView) -> Seq<char> {
    match e {
        AppErrorView::RegisterError(addr) => "Failed to register to server on address "@ + addr,
    }
}

impl AppError {
    /// The text of the error.
    pub fn to_string(&self) -> (res: String)
        ensures
            res@ == app_error_text(self@),
    {
        match self {
            AppError::RegisterError(addr) => {
                let mut s = String::from_str("Failed to register to server on address ");
                s.append(addr.as_str());
                s
            },
        }
    }
}

/// The messages that register a client with a server, in the order they
/// are sent: a `NICK` with the nickname, then a `USER` whose user name and
/// real name are both the nickname.
pub fn registration_messages(nickname: &str) -> (res: (Message, Message))
    ensures
        res.0@ == (MessageView {
            tags: seq![],
            source: None,
            command: CommandView::Nick(NickView { nickname: nickname@ }),
        }),
        res.1@ == (MessageView {
            tags: seq![],
            source: None,
            command: CommandView::User(UserView { username: nickname@, realname: nickname@ }),
        }),
{
    let nick = Message::from(Nick { nickname: String::from_str(nickname) });
    let user = Message::from(
        User { username: String::from_str(nickname), realname: String::from_str(nickname) },
    );
    (nick, user)
}

} // verus!
