//! Entities from the fields of the rows in which a table keeps them.

use crate::idlist::{get_list, parse_list};
use crate::state::Account;
use crate::types::{
    Attribute, AttributeView, Channel, ChannelView, Message, MessageView, User, UserView,
};
use std::collections::HashMap;
use vstd::prelude::*;

verus! {

/// The id that a table's number stands for; none for a negative number or
/// one beyond `usize::MAX`.
pub open spec fn id_of(n: i64) -> Option<usize> {
    if 0 <= n <= usize::MAX {
        Some(n as usize)
    } else {
        None
    }
}

/// Reads an id from a table's number.
pub fn to_id(n: i64) -> (out: Option<usize>)
    ensures
        out == id_of(n),
{
    if n < 0 {
        None
    } else if n as u64 > usize::MAX as u64 {
        None
    } else {
        Some(n as usize)
    }
}

/// The role of a row. `None` says that the id or the position is no
/// number that a role can have.
pub fn get_group_by_fields(
    allow: u8,
    deny: u8,
    id: i64,
    name: String,
    pos: i64,
    unassignable: bool,
) -> (out: Option<Attribute>)
    ensures
        match (id_of(id), id_of(pos)) {
            (Some(i), Some(p)) => out matches Some(role) && role@ == (AttributeView {
                allow,
                deny,
                id: i,
                name: name@,
                pos: p,
                unassignable,
            }),
            _ => out is None,
        },
{
    match (to_id(id), to_id(pos)) {
        (Some(i), Some(p)) => Some(Attribute { allow, deny, id: i, name, pos: p, unassignable }),
        _ => None,
    }
}

/// The user of a row, whose roles are kept as a list in text. `None` says
/// that the id is no id or the text no list.
pub fn get_user_by_fields(
    ban: bool,
    bot: bool,
    groups: &str,
    id: i64,
    name: String,
) -> (out: Option<User>)
    ensures
        match (id_of(id), parse_list(groups@)) {
            (Some(i), Some(list)) => out matches Some(user) && user@ == (UserView {
                attributes: list,
                ban,
                bot,
                id: i,
                name: name@,
            }),
            _ => out is None,
        },
{
    match (to_id(id), get_list(groups)) {
        (Some(i), Some(list)) => Some(User { attributes: list, ban, bot, id: i, name }),
        _ => None,
    }
}

/// The message of a row. `None` says that one of the ids is no id.
pub fn get_message_by_fields(
    author: i64,
    channel: i64,
    id: i64,
    text: Vec<u8>,
    timestamp: i64,
    timestamp_edit: Option<i64>,
) -> (out: Option<Message>)
    ensures
        match (id_of(author), id_of(channel), id_of(id)) {
            (Some(a), Some(c), Some(i)) => out matches Some(message) && message@ == (MessageView {
                author: a,
                channel: c,
                id: i,
                text: text@,
                timestamp,
                timestamp_edit,
            }),
            _ => out is None,
        },
{
    match (to_id(author), to_id(channel), to_id(id)) {
        (Some(a), Some(c), Some(i)) => Some(
            Message { author: a, channel: c, id: i, text, timestamp, timestamp_edit },
        ),
        _ => None,
    }
}

/// An override as a table keeps it: the role, the allow mask and the deny
/// mask.
pub struct OverrideRow {
    pub role: i64,
    pub allow: u8,
    pub deny: u8,
}

/// The overrides of a run of rows: a later row for a role replaces an
/// earlier one. A row whose role is no id makes the run stand for no
/// overrides.
pub open spec fn overrides_of(rows: Seq<OverrideRow>) -> Option<Map<usize, (u8, u8)>>
    decreases rows.len(),
{
    if rows.len() == 0 {
        Some(Map::empty())
    } else {
        match (overrides_of(rows.drop_last()), id_of(rows.last().role)) {
            (Some(m), Some(role)) => Some(m.insert(role, (rows.last().allow, rows.last().deny))),
            _ => None,
        }
    }
}

/// The channel of a row and of the rows of its overrides. `None` says
/// that one of the ids is no id.
pub fn get_channel_by_fields(id: i64, name: String, overrides: &Vec<OverrideRow>) -> (out: Option<
    Channel,
>)
    ensures
        match (id_of(id), overrides_of(overrides@)) {
            (Some(i), Some(m)) => out matches Some(channel) && channel@ == (ChannelView {
                id: i,
                name: name@,
                overrides: m,
            }),
            _ => out is None,
        },
{
    broadcast use vstd::std_specs::hash::group_hash_axioms;

    let mut map: HashMap<usize, (u8, u8)> = HashMap::new();
    let mut k: usize = 0;
    while k < overrides.len()
        invariant
            k <= overrides.len(),
            overrides_of(overrides@.take(k as int)) == Some(map@),
        decreases overrides.len() - k,
    {
        assert(overrides@.take(k + 1).drop_last() =~= overrides@.take(k as int));
        match to_id(overrides[k].role) {
            Some(role) => {
                map.insert(role, (overrides[k].allow, overrides[k].deny));
            },
            None => {
                proof {
                    lemma_bad_row(overrides@, k as int);
                }
                return None;
            },
        }
        k += 1;
    }
    assert(overrides@.take(overrides.len() as int) =~= overrides@);
    match to_id(id) {
        Some(i) => Some(Channel { id: i, name, overrides: map }),
        None => None,
    }
}

proof fn lemma_bad_row(rows: Seq<OverrideRow>, k: int)
    requires
        0 <= k < rows.len(),
        id_of(rows[k].role) is None,
    ensures
        overrides_of(rows) is None,
    decreases rows.len(),
{
    if k < rows.len() - 1 {
        assert(rows.drop_last()[k] == rows[k]);
        lemma_bad_row(rows.drop_last(), k);
    }
}

/// The account of a row: the user with its credentials and the address it
/// last logged in from. `None` says that the id is no id or the text of
/// the roles no list.
pub fn get_account_by_fields(
    ban: bool,
    bot: bool,
    groups: &str,
    id: i64,
    last_ip: u128,
    name: String,
    password: String,
    token: String,
) -> (out: Option<Account>)
    ensures
        match (id_of(id), parse_list(groups@)) {
            (Some(i), Some(list)) => out matches Some(account) && account@.user == (UserView {
                attributes: list,
                ban,
                bot,
                id: i,
                name: name@,
            }) && account@.password == password@ && account@.token == token@ && account@.last_ip
                == last_ip,
            _ => out is None,
        },
{
    match get_user_by_fields(ban, bot, groups, id, name) {
        Some(user) => Some(Account { user, password, token, last_ip }),
        None => None,
    }
}

} // verus!
