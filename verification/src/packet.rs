//! The packets of the protocol: a closed tagged union, with the view of each
//! variant.

use crate::types::{
    opt_ids, opt_text, texts, Attribute, AttributeView, Channel, ChannelView, Message,
    MessageView, User, UserView,
};
use std::collections::HashMap;
use vstd::prelude::*;

verus! {

/// The request to end the session.
#[derive(Debug, Default, Clone, Copy, PartialEq, Eq, Structural)]
pub struct Close {
}

/// Authenticates by password or token; a password with an unused name creates the account.
#[derive(Debug, Default, Clone, PartialEq, Eq)]
pub struct Login {
    pub bot: bool,
    pub name: String,
    pub password: Option<String>,
    pub token: Option<String>,
}

/// The view of `Login`.
pub struct LoginView {
    pub bot: bool,
    pub name: Seq<char>,
    pub password: Option<Seq<char>>,
    pub token: Option<Seq<char>>,
}

impl View for Login {
    type V = LoginView;

    open spec fn view(&self) -> LoginView {
        LoginView {
            bot: self.bot,
            name: self.name@,
            password: opt_text(self.password),
            token: opt_text(self.token),
        }
    }
}

/// Creates a role at a position.
#[derive(Debug, Default, Clone, PartialEq, Eq)]
pub struct AttributeCreate {
    pub allow: u8,
    pub deny: u8,
    pub name: String,
    pub pos: usize,
    pub unassignable: bool,
}

/// The view of `AttributeCreate`.
pub struct AttributeCreateView {
    pub allow: u8,
    pub deny: u8,
    pub name: Seq<char>,
    pub pos: usize,
    pub unassignable: bool,
}

impl View for AttributeCreate {
    type V = AttributeCreateView;

    open spec fn view(&self) -> AttributeCreateView {
        AttributeCreateView {
            allow: self.allow,
            deny: self.deny,
            name: self.name@,
            pos: self.pos,
            unassignable: self.unassignable,
        }
    }
}

/// Replaces a role's fields, moving it if its position changes.
#[derive(Debug, Default, Clone, PartialEq, Eq)]
pub struct AttributeUpdate {
    pub inner: Attribute,
}

/// The view of `AttributeUpdate`.
pub struct AttributeUpdateView {
    pub inner: AttributeView,
}

impl View for AttributeUpdate {
    type V = AttributeUpdateView;

    open spec fn view(&self) -> AttributeUpdateView {
        AttributeUpdateView {
            inner: self.inner@,
        }
    }
}

/// Deletes a role.
#[derive(Debug, Default, Clone, Copy, PartialEq, Eq, Structural)]
pub struct AttributeDelete {
    pub id: usize,
}

/// Creates a channel.
#[derive(Debug, Default, Clone, PartialEq, Eq)]
pub struct ChannelCreate {
    pub name: String,
    pub overrides: HashMap<usize, (u8, u8)>,
}

/// The view of `ChannelCreate`.
pub struct ChannelCreateView {
    pub name: Seq<char>,
    pub overrides: Map<usize, (u8, u8)>,
}

impl View for ChannelCreate {
    type V = ChannelCreateView;

    open spec fn view(&self) -> ChannelCreateView {
        ChannelCreateView {
            name: self.name@,
            overrides: self.overrides@,
        }
    }
}

/// Renames a channel and, unless told to keep them, replaces its overrides.
#[derive(Debug, Default, Clone, PartialEq, Eq)]
pub struct ChannelUpdate {
    pub inner: Channel,
    pub keep_overrides: bool,
}

/// The view of `ChannelUpdate`.
pub struct ChannelUpdateView {
    pub inner: ChannelView,
    pub keep_overrides: bool,
}

impl View for ChannelUpdate {
    type V = ChannelUpdateView;

    open spec fn view(&self) -> ChannelUpdateView {
        ChannelUpdateView {
            inner: self.inner@,
            keep_overrides: self.keep_overrides,
        }
    }
}

/// Deletes a channel with its messages.
#[derive(Debug, Default, Clone, Copy, PartialEq, Eq, Structural)]
pub struct ChannelDelete {
    pub id: usize,
}

/// Asks for a page of a channel's messages.
#[derive(Debug, Default, Clone, Copy, PartialEq, Eq, Structural)]
pub struct MessageList {
    pub after: Option<usize>,
    pub before: Option<usize>,
    pub channel: usize,
    pub limit: usize,
}

/// Tells a channel that the sender is typing.
#[derive(Debug, Default, Clone, Copy, PartialEq, Eq, Structural)]
pub struct Typing {
    pub channel: usize,
}

/// Posts a message.
#[derive(Debug, Default, Clone, PartialEq, Eq)]
pub struct MessageCreate {
    pub channel: usize,
    pub text: Vec<u8>,
}

/// The view of `MessageCreate`.
pub struct MessageCreateView {
    pub channel: usize,
    pub text: Seq<u8>,
}

impl View for MessageCreate {
    type V = MessageCreateView;

    open spec fn view(&self) -> MessageCreateView {
        MessageCreateView {
            channel: self.channel,
            text: self.text@,
        }
    }
}

/// Replaces the text of one of the sender's messages.
#[derive(Debug, Default, Clone, PartialEq, Eq)]
pub struct MessageUpdate {
    pub channel: usize,
    pub id: usize,
    pub text: Vec<u8>,
}

/// The view of `MessageUpdate`.
pub struct MessageUpdateView {
    pub channel: usize,
    pub id: usize,
    pub text: Seq<u8>,
}

impl View for MessageUpdate {
    type V = MessageUpdateView;

    open spec fn view(&self) -> MessageUpdateView {
        MessageUpdateView {
            channel: self.channel,
            id: self.id,
            text: self.text@,
        }
    }
}

/// Deletes a message.
#[derive(Debug, Default, Clone, Copy, PartialEq, Eq, Structural)]
pub struct MessageDelete {
    pub channel: usize,
    pub id: usize,
}

/// A command addressed to a bot.
#[derive(Debug, Default, Clone, PartialEq, Eq)]
pub struct Command {
    pub author: usize,
    pub parts: Vec<String>,
    pub recipient: usize,
}

/// The view of `Command`.
pub struct CommandView {
    pub author: usize,
    pub parts: Seq<Seq<char>>,
    pub recipient: usize,
}

impl View for Command {
    type V = CommandView;

    open spec fn view(&self) -> CommandView {
        CommandView {
            author: self.author,
            parts: texts(self.parts@),
            recipient: self.recipient,
        }
    }
}

/// Bans or unbans a user, or replaces a user's roles.
#[derive(Debug, Default, Clone, PartialEq, Eq)]
pub struct UserUpdate {
    pub attributes: Option<Vec<usize>>,
    pub ban: Option<bool>,
    pub id: usize,
}

/// The view of `UserUpdate`.
pub struct UserUpdateView {
    pub attributes: Option<Seq<usize>>,
    pub ban: Option<bool>,
    pub id: usize,
}

impl View for UserUpdate {
    type V = UserUpdateView;

    open spec fn view(&self) -> UserUpdateView {
        UserUpdateView {
            attributes: opt_ids(self.attributes),
            ban: self.ban,
            id: self.id,
        }
    }
}

/// Changes the sender's own name, password or token.
#[derive(Debug, Default, Clone, PartialEq, Eq)]
pub struct LoginUpdate {
    pub name: Option<String>,
    pub password_current: Option<String>,
    pub password_new: Option<String>,
    pub reset_token: bool,
}

/// The view of `LoginUpdate`.
pub struct LoginUpdateView {
    pub name: Option<Seq<char>>,
    pub password_current: Option<Seq<char>>,
    pub password_new: Option<Seq<char>>,
    pub reset_token: bool,
}

impl View for LoginUpdate {
    type V = LoginUpdateView;

    open spec fn view(&self) -> LoginUpdateView {
        LoginUpdateView {
            name: opt_text(self.name),
            password_current: opt_text(self.password_current),
            password_new: opt_text(self.password_new),
            reset_token: self.reset_token,
        }
    }
}

/// The outcome of an authentication.
#[derive(Debug, Default, Clone, PartialEq, Eq)]
pub struct LoginSuccess {
    pub created: bool,
    pub id: usize,
    pub token: String,
}

/// The view of `LoginSuccess`.
pub struct LoginSuccessView {
    pub created: bool,
    pub id: usize,
    pub token: Seq<char>,
}

impl View for LoginSuccess {
    type V = LoginSuccessView;

    open spec fn view(&self) -> LoginSuccessView {
        LoginSuccessView {
            created: self.created,
            id: self.id,
            token: self.token@,
        }
    }
}

/// A user was created or changed.
#[derive(Debug, Default, Clone, PartialEq, Eq)]
pub struct UserReceive {
    pub inner: User,
}

/// The view of `UserReceive`.
pub struct UserReceiveView {
    pub inner: UserView,
}

impl View for UserReceive {
    type V = UserReceiveView;

    open spec fn view(&self) -> UserReceiveView {
        UserReceiveView {
            inner: self.inner@,
        }
    }
}

/// A role was created or changed.
#[derive(Debug, Default, Clone, PartialEq, Eq)]
pub struct AttributeReceive {
    pub inner: Attribute,
    pub new: bool,
}

/// The view of `AttributeReceive`.
pub struct AttributeReceiveView {
    pub inner: AttributeView,
    pub new: bool,
}

impl View for AttributeReceive {
    type V = AttributeReceiveView;

    open spec fn view(&self) -> AttributeReceiveView {
        AttributeReceiveView {
            inner: self.inner@,
            new: self.new,
        }
    }
}

/// A role was deleted.
#[derive(Debug, Default, Clone, PartialEq, Eq)]
pub struct AttributeDeleteReceive {
    pub inner: Attribute,
}

/// The view of `AttributeDeleteReceive`.
pub struct AttributeDeleteReceiveView {
    pub inner: AttributeView,
}

impl View for AttributeDeleteReceive {
    type V = AttributeDeleteReceiveView;

    open spec fn view(&self) -> AttributeDeleteReceiveView {
        AttributeDeleteReceiveView {
            inner: self.inner@,
        }
    }
}

/// A channel was created or changed.
#[derive(Debug, Default, Clone, PartialEq, Eq)]
pub struct ChannelReceive {
    pub inner: Channel,
}

/// The view of `ChannelReceive`.
pub struct ChannelReceiveView {
    pub inner: ChannelView,
}

impl View for ChannelReceive {
    type V = ChannelReceiveView;

    open spec fn view(&self) -> ChannelReceiveView {
        ChannelReceiveView {
            inner: self.inner@,
        }
    }
}

/// A channel was deleted.
#[derive(Debug, Default, Clone, PartialEq, Eq)]
pub struct ChannelDeleteReceive {
    pub inner: Channel,
}

/// The view of `ChannelDeleteReceive`.
pub struct ChannelDeleteReceiveView {
    pub inner: ChannelView,
}

impl View for ChannelDeleteReceive {
    type V = ChannelDeleteReceiveView;

    open spec fn view(&self) -> ChannelDeleteReceiveView {
        ChannelDeleteReceiveView {
            inner: self.inner@,
        }
    }
}

/// Somebody is typing in a channel.
#[derive(Debug, Default, Clone, Copy, PartialEq, Eq, Structural)]
pub struct TypingReceive {
    pub author: usize,
    pub channel: usize,
}

/// A message: a new or edited one, or an element of a requested page.
#[derive(Debug, Default, Clone, PartialEq, Eq)]
pub struct MessageReceive {
    pub inner: Message,
    pub new: bool,
}

/// The view of `MessageReceive`.
pub struct MessageReceiveView {
    pub inner: MessageView,
    pub new: bool,
}

impl View for MessageReceive {
    type V = MessageReceiveView;

    open spec fn view(&self) -> MessageReceiveView {
        MessageReceiveView {
            inner: self.inner@,
            new: self.new,
        }
    }
}

/// A message was deleted.
#[derive(Debug, Default, Clone, Copy, PartialEq, Eq, Structural)]
pub struct MessageDeleteReceive {
    pub id: usize,
}

/// A command as a bot receives it.
#[derive(Debug, Default, Clone, PartialEq, Eq)]
pub struct CommandReceive {
    pub args: Vec<String>,
    pub author: User,
    pub command: String,
    pub recipient: User,
}

/// The view of `CommandReceive`.
pub struct CommandReceiveView {
    pub args: Seq<Seq<char>>,
    pub author: UserView,
    pub command: Seq<char>,
    pub recipient: UserView,
}

impl View for CommandReceive {
    type V = CommandReceiveView;

    open spec fn view(&self) -> CommandReceiveView {
        CommandReceiveView {
            args: texts(self.args@),
            author: self.author@,
            command: self.command@,
            recipient: self.recipient@,
        }
    }
}

/// Every message that client and server exchange.
#[derive(Debug, Clone, PartialEq, Eq)]
pub enum Packet {
    Close,
    Error(u8),
    RateLimited(u64),
    Login(Login),
    AttributeCreate(AttributeCreate),
    AttributeUpdate(AttributeUpdate),
    AttributeDelete(AttributeDelete),
    ChannelCreate(ChannelCreate),
    ChannelUpdate(ChannelUpdate),
    ChannelDelete(ChannelDelete),
    MessageList(MessageList),
    Typing(Typing),
    MessageCreate(MessageCreate),
    MessageUpdate(MessageUpdate),
    MessageDelete(MessageDelete),
    Command(Command),
    UserUpdate(UserUpdate),
    LoginUpdate(LoginUpdate),
    LoginSuccess(LoginSuccess),
    UserReceive(UserReceive),
    AttributeReceive(AttributeReceive),
    AttributeDeleteReceive(AttributeDeleteReceive),
    ChannelReceive(ChannelReceive),
    ChannelDeleteReceive(ChannelDeleteReceive),
    TypingReceive(TypingReceive),
    MessageReceive(MessageReceive),
    MessageDeleteReceive(MessageDeleteReceive),
    CommandReceive(CommandReceive),
}

/// The view of `Packet`.
pub enum PacketView {
    Close,
    Error(u8),
    RateLimited(u64),
    Login(LoginView),
    AttributeCreate(AttributeCreateView),
    AttributeUpdate(AttributeUpdateView),
    AttributeDelete(AttributeDelete),
    ChannelCreate(ChannelCreateView),
    ChannelUpdate(ChannelUpdateView),
    ChannelDelete(ChannelDelete),
    MessageList(MessageList),
    Typing(Typing),
    MessageCreate(MessageCreateView),
    MessageUpdate(MessageUpdateView),
    MessageDelete(MessageDelete),
    Command(CommandView),
    UserUpdate(UserUpdateView),
    LoginUpdate(LoginUpdateView),
    LoginSuccess(LoginSuccessView),
    UserReceive(UserReceiveView),
    AttributeReceive(AttributeReceiveView),
    AttributeDeleteReceive(AttributeDeleteReceiveView),
    ChannelReceive(ChannelReceiveView),
    ChannelDeleteReceive(ChannelDeleteReceiveView),
    TypingReceive(TypingReceive),
    MessageReceive(MessageReceiveView),
    MessageDeleteReceive(MessageDeleteReceive),
    CommandReceive(CommandReceiveView),
}

impl View for Packet {
    type V = PacketView;

    open spec fn view(&self) -> PacketView {
        match *self {
            Packet::Close => PacketView::Close,
            Packet::Error(code) => PacketView::Error(code),
            Packet::RateLimited(left) => PacketView::RateLimited(left),
            Packet::Login(p) => PacketView::Login(p@),
            Packet::AttributeCreate(p) => PacketView::AttributeCreate(p@),
            Packet::AttributeUpdate(p) => PacketView::AttributeUpdate(p@),
            Packet::AttributeDelete(p) => PacketView::AttributeDelete(p),
            Packet::ChannelCreate(p) => PacketView::ChannelCreate(p@),
            Packet::ChannelUpdate(p) => PacketView::ChannelUpdate(p@),
            Packet::ChannelDelete(p) => PacketView::ChannelDelete(p),
            Packet::MessageList(p) => PacketView::MessageList(p),
            Packet::Typing(p) => PacketView::Typing(p),
            Packet::MessageCreate(p) => PacketView::MessageCreate(p@),
            Packet::MessageUpdate(p) => PacketView::MessageUpdate(p@),
            Packet::MessageDelete(p) => PacketView::MessageDelete(p),
            Packet::Command(p) => PacketView::Command(p@),
            Packet::UserUpdate(p) => PacketView::UserUpdate(p@),
            Packet::LoginUpdate(p) => PacketView::LoginUpdate(p@),
            Packet::LoginSuccess(p) => PacketView::LoginSuccess(p@),
            Packet::UserReceive(p) => PacketView::UserReceive(p@),
            Packet::AttributeReceive(p) => PacketView::AttributeReceive(p@),
            Packet::AttributeDeleteReceive(p) => PacketView::AttributeDeleteReceive(p@),
            Packet::ChannelReceive(p) => PacketView::ChannelReceive(p@),
            Packet::ChannelDeleteReceive(p) => PacketView::ChannelDeleteReceive(p@),
            Packet::TypingReceive(p) => PacketView::TypingReceive(p),
            Packet::MessageReceive(p) => PacketView::MessageReceive(p@),
            Packet::MessageDeleteReceive(p) => PacketView::MessageDeleteReceive(p),
            Packet::CommandReceive(p) => PacketView::CommandReceive(p@),
        }
    }
}

} // verus!
