//! The entities that client and server exchange, each with its mathematical
//! view.

use std::collections::HashMap;
use vstd::prelude::*;

verus! {

/// The view of an optional string.
pub open spec fn opt_text(o: Option<String>) -> Option<Seq<char>> {
    match o {
        Some(s) => Some(s@),
        None => None,
    }
}

/// The view of an optional list of ids.
pub open spec fn opt_ids(o: Option<Vec<usize>>) -> Option<Seq<usize>> {
    match o {
        Some(v) => Some(v@),
        None => None,
    }
}

/// The view of a list of strings.
pub open spec fn texts(v: Seq<String>) -> Seq<Seq<char>> {
    Seq::new(v.len(), |i: int| v[i]@)
}

/// A role: an allow mask and a deny mask at a position in the role order.
#[derive(Debug, Default, PartialEq, Eq)]
pub struct Attribute {
    pub allow: u8,
    pub deny: u8,
    pub id: usize,
    pub name: String,
    pub pos: usize,
    pub unassignable: bool,
}

/// The view of `Attribute`.
pub struct AttributeView {
    pub allow: u8,
    pub deny: u8,
    pub id: usize,
    pub name: Seq<char>,
    pub pos: usize,
    pub unassignable: bool,
}

impl View for Attribute {
    type V = AttributeView;

    open spec fn view(&self) -> AttributeView {
        AttributeView {
            allow: self.allow,
            deny: self.deny,
            id: self.id,
            name: self.name@,
            pos: self.pos,
            unassignable: self.unassignable,
        }
    }
}

impl Clone for Attribute {
    fn clone(&self) -> (out: Self)
        ensures
            out@ == self@,
    {
        Attribute {
            allow: self.allow,
            deny: self.deny,
            id: self.id,
            name: self.name.clone(),
            pos: self.pos,
            unassignable: self.unassignable,
        }
    }
}

/// The views of a list of roles.
pub open spec fn attribute_views(s: Seq<Attribute>) -> Seq<AttributeView> {
    Seq::new(s.len(), |i: int| s[i]@)
}

/// A user as other users see it: no credentials.
#[derive(Debug, Default, PartialEq, Eq)]
pub struct User {
    pub attributes: Vec<usize>,
    pub ban: bool,
    pub bot: bool,
    pub id: usize,
    pub name: String,
}

/// The view of `User`.
pub struct UserView {
    pub attributes: Seq<usize>,
    pub ban: bool,
    pub bot: bool,
    pub id: usize,
    pub name: Seq<char>,
}

impl View for User {
    type V = UserView;

    open spec fn view(&self) -> UserView {
        UserView {
            attributes: self.attributes@,
            ban: self.ban,
            bot: self.bot,
            id: self.id,
            name: self.name@,
        }
    }
}

impl Clone for User {
    fn clone(&self) -> (out: Self)
        ensures
            out@ == self@,
    {
        User {
            attributes: self.attributes.clone(),
            ban: self.ban,
            bot: self.bot,
            id: self.id,
            name: self.name.clone(),
        }
    }
}

/// A channel with its per-role overrides: role id to (allow, deny).
#[derive(Debug, Default, PartialEq, Eq)]
pub struct Channel {
    pub id: usize,
    pub name: String,
    pub overrides: HashMap<usize, (u8, u8)>,
}

/// The view of `Channel`.
pub struct ChannelView {
    pub id: usize,
    pub name: Seq<char>,
    pub overrides: Map<usize, (u8, u8)>,
}

impl View for Channel {
    type V = ChannelView;

    open spec fn view(&self) -> ChannelView {
        ChannelView { id: self.id, name: self.name@, overrides: self.overrides@ }
    }
}

impl Clone for Channel {
    fn clone(&self) -> (out: Self)
        ensures
            out@ == self@,
    {
        Channel { id: self.id, name: self.name.clone(), overrides: self.overrides.clone() }
    }
}

/// A message: opaque bytes written by an author into a channel.
#[derive(Debug, Default, PartialEq, Eq)]
pub struct Message {
    pub author: usize,
    pub channel: usize,
    pub id: usize,
    pub text: Vec<u8>,
    pub timestamp: i64,
    pub timestamp_edit: Option<i64>,
}

/// The view of `Message`.
pub struct MessageView {
    pub author: usize,
    pub channel: usize,
    pub id: usize,
    pub text: Seq<u8>,
    pub timestamp: i64,
    pub timestamp_edit: Option<i64>,
}

impl View for Message {
    type V = MessageView;

    open spec fn view(&self) -> MessageView {
        MessageView {
            author: self.author,
            channel: self.channel,
            id: self.id,
            text: self.text@,
            timestamp: self.timestamp,
            timestamp_edit: self.timestamp_edit,
        }
    }
}

impl Clone for Message {
    fn clone(&self) -> (out: Self)
        ensures
            out@ == self@,
    {
        Message {
            author: self.author,
            channel: self.channel,
            id: self.id,
            text: self.text.clone(),
            timestamp: self.timestamp,
            timestamp_edit: self.timestamp_edit,
        }
    }
}

} // verus!
