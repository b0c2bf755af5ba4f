//! The persistent state of the server as a mathematical value: what it
//! holds, the rules that it keeps, and what each change makes of it.

use crate::consts::RESERVED_ROLES;
use crate::names::same_name;
use crate::roles::{
    has_role, index_of, is_system, lemma_index_of, others, table_create, table_delete, table_ok,
    table_update,
};
use crate::seqs::{first_match, keep, least, lemma_first_match, lemma_keep};
use crate::types::{
    AttributeView, Channel, ChannelView, Message, MessageView, User, UserView,
};
use vstd::prelude::*;

verus! {

/// A user with its credentials and the address it last logged in from.
#[derive(Debug, Default, PartialEq, Eq)]
pub struct Account {
    pub user: User,
    /// The hash of the password.
    pub password: String,
    pub token: String,
    pub last_ip: u128,
}

/// The view of `Account`.
pub struct AccountView {
    pub user: UserView,
    pub password: Seq<char>,
    pub token: Seq<char>,
    pub last_ip: u128,
}

impl View for Account {
    type V = AccountView;

    open spec fn view(&self) -> AccountView {
        AccountView {
            user: self.user@,
            password: self.password@,
            token: self.token@,
            last_ip: self.last_ip,
        }
    }
}

/// The views of a list of accounts.
pub open spec fn account_views(s: Seq<Account>) -> Seq<AccountView> {
    Seq::new(s.len(), |i: int| s[i]@)
}

/// The views of a list of channels.
pub open spec fn channel_views(s: Seq<Channel>) -> Seq<ChannelView> {
    Seq::new(s.len(), |i: int| s[i]@)
}

/// The views of a list of messages.
pub open spec fn message_views(s: Seq<Message>) -> Seq<MessageView> {
    Seq::new(s.len(), |i: int| s[i]@)
}

/// The state as a mathematical value.
pub struct StoreView {
    /// The role table: the system roles, then the others by position.
    pub roles: Seq<AttributeView>,
    /// The accounts in the order of their ids.
    pub accounts: Seq<AccountView>,
    /// The channels in the order of their ids.
    pub channels: Seq<ChannelView>,
    /// The messages in the order of their ids.
    pub messages: Seq<MessageView>,
    /// The id that the next role gets.
    pub next_role: usize,
    /// The id that the next account gets.
    pub next_user: usize,
    /// The id that the next channel gets.
    pub next_channel: usize,
    /// The id that the next message gets.
    pub next_message: usize,
}

impl StoreView {
    /// The index of the role with this id, or -1.
    pub open spec fn role_index(self, id: usize) -> int {
        index_of(self.roles, id)
    }

    /// The index of the account with this id, or -1.
    pub open spec fn account_index(self, id: usize) -> int {
        first_match(self.accounts, |a: AccountView| a.user.id == id)
    }

    /// The index of the account with this name, or -1.
    pub open spec fn name_index(self, name: Seq<char>) -> int {
        first_match(self.accounts, |a: AccountView| same_name(a.user.name, name))
    }

    /// The index of the channel with this id, or -1.
    pub open spec fn channel_index(self, id: usize) -> int {
        first_match(self.channels, |c: ChannelView| c.id == id)
    }

    /// The index of the message with this id, or -1.
    pub open spec fn message_index(self, id: usize) -> int {
        first_match(self.messages, |m: MessageView| m.id == id)
    }

    /// Whether a banned account last logged in from this address.
    pub open spec fn banned_address(self, ip: u128) -> bool {
        exists|i: int|
            0 <= i < self.accounts.len() && (#[trigger] self.accounts[i]).user.ban
                && self.accounts[i].last_ip == ip
    }

    /// The rules of the role table: it is well-formed and every id in it
    /// was handed out.
    pub open spec fn roles_ok(self) -> bool {
        &&& table_ok(self.roles)
        &&& forall|i: int| 0 <= i < self.roles.len() ==> (#[trigger] self.roles[i]).id < self.next_role
    }

    /// The rules of the accounts: ids are not zero, were handed out and
    /// grow along the list; no two accounts have the same name; an account
    /// lists only roles that exist and are not system roles.
    pub open spec fn accounts_ok(self) -> bool {
        &&& self.next_user > 0
        &&& forall|i: int|
            0 <= i < self.accounts.len() ==> 0 < (#[trigger] self.accounts[i]).user.id
                < self.next_user
        &&& forall|i: int, j: int|
            0 <= i < j < self.accounts.len() ==> (#[trigger] self.accounts[i]).user.id < (
            #[trigger] self.accounts[j]).user.id
        &&& forall|i: int, j: int|
            0 <= i < self.accounts.len() && 0 <= j < self.accounts.len() && i != j ==> !same_name(
                (#[trigger] self.accounts[i]).user.name,
                (#[trigger] self.accounts[j]).user.name,
            )
        &&& forall|i: int, k: int|
            0 <= i < self.accounts.len() && 0 <= k < self.accounts[i].user.attributes.len() ==> {
                let id = #[trigger] self.accounts[i].user.attributes[k];
                id > RESERVED_ROLES && has_role(self.roles, id)
            }
    }

    /// The rules of the channels: ids are not zero, were handed out and
    /// grow along the list; an override names a role that exists.
    pub open spec fn channels_ok(self) -> bool {
        &&& self.next_channel > 0
        &&& forall|i: int|
            0 <= i < self.channels.len() ==> 0 < (#[trigger] self.channels[i]).id
                < self.next_channel
        &&& forall|i: int, j: int|
            0 <= i < j < self.channels.len() ==> (#[trigger] self.channels[i]).id < (
            #[trigger] self.channels[j]).id
        &&& forall|i: int, id: usize|
            0 <= i < self.channels.len() && (#[trigger] self.channels[i]).overrides.contains_key(id)
                ==> #[trigger] has_role(self.roles, id)
    }

    /// The rules of the messages: ids are not zero, were handed out and
    /// grow along the list.
    pub open spec fn messages_ok(self) -> bool {
        &&& self.next_message > 0
        &&& forall|i: int|
            0 <= i < self.messages.len() ==> 0 < (#[trigger] self.messages[i]).id
                < self.next_message
        &&& forall|i: int, j: int|
            0 <= i < j < self.messages.len() ==> (#[trigger] self.messages[i]).id < (
            #[trigger] self.messages[j]).id
    }

    /// All the rules of the state.
    pub open spec fn ok(self) -> bool {
        &&& self.roles_ok()
        &&& self.accounts_ok()
        &&& self.channels_ok()
        &&& self.messages_ok()
    }
}

/// The overrides that name a role of the table.
pub open spec fn known_overrides(roles: Seq<AttributeView>, overrides: Map<usize, (u8, u8)>) -> Map<
    usize,
    (u8, u8),
> {
    Map::new(|id: usize| overrides.contains_key(id) && has_role(roles, id), |id: usize| overrides[id])
}

/// Which messages a page is taken from.
#[derive(Debug, Clone, Copy, PartialEq, Eq, Structural)]
pub enum Bound {
    /// All messages of the channel; the page is their end.
    Latest,
    /// The messages of the channel that are no older than this time; the
    /// page is their start.
    After(i64),
    /// The messages of the channel that are no younger than this time; the
    /// page is their start.
    Before(i64),
}

/// Whether a message belongs to what a page of a channel is taken from.
pub open spec fn in_bound(m: MessageView, channel: usize, bound: Bound) -> bool {
    m.channel == channel && match bound {
        Bound::Latest => true,
        Bound::After(time) => m.timestamp >= time,
        Bound::Before(time) => m.timestamp <= time,
    }
}

/// The test of `in_bound` as a predicate on messages.
pub open spec fn bound_test(channel: usize, bound: Bound) -> spec_fn(MessageView) -> bool {
    |m: MessageView| in_bound(m, channel, bound)
}

/// The test that a message is not in a channel.
pub open spec fn outside_test(channel: usize) -> spec_fn(MessageView) -> bool {
    |m: MessageView| m.channel != channel
}

/// The messages that a page of a channel is taken from, oldest first.
pub open spec fn bounded(ms: Seq<MessageView>, channel: usize, bound: Bound) -> Seq<MessageView> {
    keep(ms, bound_test(channel, bound))
}

/// A list of ids without one id, in the same order.
pub open spec fn without(ids: Seq<usize>, id: usize) -> Seq<usize>
    decreases ids.len(),
{
    if ids.len() == 0 {
        ids
    } else if ids.last() == id {
        without(ids.drop_last(), id)
    } else {
        without(ids.drop_last(), id).push(ids.last())
    }
}

/// What is left of a list without an id was in the list, and is not the
/// id.
pub proof fn lemma_without(ids: Seq<usize>, id: usize)
    ensures
        without(ids, id).len() <= ids.len(),
        forall|k: int|
            0 <= k < without(ids, id).len() ==> (#[trigger] without(ids, id)[k]) != id
                && ids.contains(without(ids, id)[k]),
        !ids.contains(id) ==> without(ids, id) == ids,
    decreases ids.len(),
{
    if ids.len() > 0 {
        let head = ids.drop_last();
        lemma_without(head, id);
        assert forall|k: int| 0 <= k < without(ids, id).len() implies (#[trigger] without(
            ids,
            id,
        )[k]) != id && ids.contains(without(ids, id)[k]) by {
            if k < without(head, id).len() {
                let x = without(head, id)[k];
                assert(head.contains(x));
                let j = choose|j: int| 0 <= j < head.len() && head[j] == x;
                assert(ids[j] == x);
            } else {
                assert(ids[ids.len() - 1] == ids.last());
            }
        }
        if !ids.contains(id) {
            assert(ids[ids.len() - 1] != id);
            assert forall|j: int| 0 <= j < head.len() implies head[j] != id by {
                assert(ids[j] == head[j]);
            }
            assert(!head.contains(id));
            assert(head.push(ids.last()) =~= ids);
        }
    }
}

/// An account that no longer lists a role.
pub open spec fn account_without_role(a: AccountView, id: usize) -> AccountView {
    AccountView { user: UserView { attributes: without(a.user.attributes, id), ..a.user }, ..a }
}

/// A channel without its override for a role.
pub open spec fn channel_without_role(c: ChannelView, id: usize) -> ChannelView {
    ChannelView { overrides: c.overrides.remove(id), ..c }
}

impl StoreView {
    /// Whether every table can take one more entry and every id counter
    /// can hand out one more id.
    pub open spec fn roomy(self) -> bool {
        &&& self.roles.len() < usize::MAX
        &&& self.next_role < usize::MAX
        &&& self.next_user < usize::MAX
        &&& self.next_channel < usize::MAX
        &&& self.next_message < usize::MAX
    }

    /// The state after the role `r`, whose id is the next one, entered the
    /// table at its position.
    pub open spec fn create_role(self, r: AttributeView) -> StoreView {
        StoreView {
            roles: table_create(self.roles, r),
            next_role: (self.next_role + 1) as usize,
            ..self
        }
    }

    /// The state after the role at index `k` was deleted: it leaves the
    /// table, the accounts that listed it and the channels that had an
    /// override for it.
    pub open spec fn delete_role(self, k: int) -> StoreView {
        let id = self.roles[k].id;
        StoreView {
            roles: table_delete(self.roles, k),
            accounts: Seq::new(
                self.accounts.len(),
                |i: int| account_without_role(self.accounts[i], id),
            ),
            channels: Seq::new(
                self.channels.len(),
                |i: int| channel_without_role(self.channels[i], id),
            ),
            ..self
        }
    }

    /// The state after an account was added under the next id.
    pub open spec fn add_account(self, a: AccountView) -> StoreView {
        StoreView {
            accounts: self.accounts.push(a),
            next_user: (self.next_user + 1) as usize,
            ..self
        }
    }

    /// The state after the account at index `i` was replaced.
    pub open spec fn set_account(self, i: int, a: AccountView) -> StoreView {
        StoreView { accounts: self.accounts.update(i, a), ..self }
    }

    /// The state after a channel was added under the next id.
    pub open spec fn add_channel(self, c: ChannelView) -> StoreView {
        StoreView {
            channels: self.channels.push(c),
            next_channel: (self.next_channel + 1) as usize,
            ..self
        }
    }

    /// The state after the channel at index `i` was replaced.
    pub open spec fn set_channel(self, i: int, c: ChannelView) -> StoreView {
        StoreView { channels: self.channels.update(i, c), ..self }
    }

    /// The state after the channel at index `i` was deleted, and its
    /// messages with it.
    pub open spec fn delete_channel(self, i: int) -> StoreView {
        let id = self.channels[i].id;
        StoreView {
            channels: self.channels.remove(i),
            messages: keep(self.messages, outside_test(id)),
            ..self
        }
    }

    /// The state after a message was added under the next id.
    pub open spec fn add_message(self, m: MessageView) -> StoreView {
        StoreView {
            messages: self.messages.push(m),
            next_message: (self.next_message + 1) as usize,
            ..self
        }
    }

    /// The state after the message at index `i` was replaced.
    pub open spec fn set_message(self, i: int, m: MessageView) -> StoreView {
        StoreView { messages: self.messages.update(i, m), ..self }
    }

    /// The state after the message at index `i` was deleted.
    pub open spec fn delete_message(self, i: int) -> StoreView {
        StoreView { messages: self.messages.remove(i), ..self }
    }

    /// A page of a channel: at most `limit` messages, oldest first, in the
    /// order in which they were posted. With `after`, the page starts at
    /// the messages that are no older than that message; else with
    /// `before`, at the oldest of those that are no younger than that
    /// message; else it is the end of the channel. A message that does not
    /// exist bounds an empty page.
    pub open spec fn page(
        self,
        channel: usize,
        after: Option<usize>,
        before: Option<usize>,
        limit: usize,
    ) -> Seq<MessageView> {
        match after {
            Some(id) => {
                let k = self.message_index(id);
                if k < 0 {
                    Seq::empty()
                } else {
                    let all = bounded(self.messages, channel, Bound::After(self.messages[k].timestamp));
                    all.take(least(limit as int, all.len() as int))
                }
            },
            None => match before {
                Some(id) => {
                    let k = self.message_index(id);
                    if k < 0 {
                        Seq::empty()
                    } else {
                        let all = bounded(
                            self.messages,
                            channel,
                            Bound::Before(self.messages[k].timestamp),
                        );
                        all.take(least(limit as int, all.len() as int))
                    }
                },
                None => {
                    let all = bounded(self.messages, channel, Bound::Latest);
                    all.skip(all.len() - least(limit as int, all.len() as int))
                },
            },
        }
    }

    /// Whether a role that was kept outside can be put back.
    ///
    /// A system role must come at position 0 under its own name. Any other
    /// role must have a new id above the system roles and come at the
    /// position behind the last role, so roles are put back in the order of
    /// their positions.
    pub open spec fn takes_role(self, r: AttributeView) -> bool {
        if is_system(r.id) {
            r.pos == 0 && r.name == self.roles[r.id - 1].name
        } else {
            &&& r.id > RESERVED_ROLES
            &&& r.id < usize::MAX
            &&& !has_role(self.roles, r.id)
            &&& r.pos == others(self.roles) + 1
            &&& self.roles.len() < usize::MAX
        }
    }

    /// The state after a role was put back: a system role gets its masks,
    /// any other role is added, and the next id lies above it.
    pub open spec fn put_role(self, r: AttributeView) -> StoreView {
        if is_system(r.id) {
            StoreView {
                roles: self.roles.update(r.id - 1, AttributeView { unassignable: true, ..r }),
                ..self
            }
        } else {
            StoreView {
                roles: self.roles.push(r),
                next_role: if r.id >= self.next_role {
                    (r.id + 1) as usize
                } else {
                    self.next_role
                },
                ..self
            }
        }
    }

    /// Whether an account that was kept outside can be put back: its id is
    /// none that was handed out, its name is new, and its roles exist and
    /// are not system roles. Accounts are put back in the order of their
    /// ids.
    pub open spec fn takes_account(self, a: AccountView) -> bool {
        &&& self.next_user <= a.user.id < usize::MAX
        &&& self.name_index(a.user.name) < 0
        &&& forall|k: int|
            0 <= k < a.user.attributes.len() ==> (#[trigger] a.user.attributes[k]) > RESERVED_ROLES
                && has_role(self.roles, a.user.attributes[k])
    }

    /// The state after an account was put back.
    pub open spec fn put_account(self, a: AccountView) -> StoreView {
        StoreView {
            accounts: self.accounts.push(a),
            next_user: (a.user.id + 1) as usize,
            ..self
        }
    }

    /// Whether a channel that was kept outside can be put back: its id is
    /// none that was handed out. Channels are put back in the order of
    /// their ids.
    pub open spec fn takes_channel(self, c: ChannelView) -> bool {
        self.next_channel <= c.id < usize::MAX
    }

    /// The state after a channel was put back, with the overrides that
    /// name existing roles.
    pub open spec fn put_channel(self, c: ChannelView) -> StoreView {
        StoreView {
            channels: self.channels.push(
                ChannelView { overrides: known_overrides(self.roles, c.overrides), ..c },
            ),
            next_channel: (c.id + 1) as usize,
            ..self
        }
    }

    /// Whether a message that was kept outside can be put back: its id is
    /// none that was handed out. Messages are put back in the order of
    /// their ids.
    pub open spec fn takes_message(self, m: MessageView) -> bool {
        self.next_message <= m.id < usize::MAX
    }

    /// The state after a message was put back.
    pub open spec fn put_message(self, m: MessageView) -> StoreView {
        StoreView {
            messages: self.messages.push(m),
            next_message: (m.id + 1) as usize,
            ..self
        }
    }

    /// Whether the id counters may be raised to the given values: none of
    /// them falls.
    pub open spec fn takes_counters(
        self,
        role: usize,
        user: usize,
        channel: usize,
        message: usize,
    ) -> bool {
        &&& self.next_role <= role
        &&& self.next_user <= user
        &&& self.next_channel <= channel
        &&& self.next_message <= message
    }

    /// The state with other id counters.
    pub open spec fn put_counters(
        self,
        role: usize,
        user: usize,
        channel: usize,
        message: usize,
    ) -> StoreView {
        StoreView {
            next_role: role,
            next_user: user,
            next_channel: channel,
            next_message: message,
            ..self
        }
    }

    /// The state after the role at index `k` was replaced by `r`.
    pub open spec fn update_role(self, k: int, r: AttributeView) -> StoreView {
        StoreView { roles: table_update(self.roles, k, r), ..self }
    }
}

/// Replacing an account keeps the rules when the id stays, the name stays
/// or is new, and the roles exist and are not system roles.
pub proof fn lemma_set_account_ok(s: StoreView, i: int, a: AccountView)
    requires
        s.ok(),
        0 <= i < s.accounts.len(),
        a.user.id == s.accounts[i].user.id,
        a.user.name == s.accounts[i].user.name || s.name_index(a.user.name) < 0,
        forall|k: int|
            0 <= k < a.user.attributes.len() ==> (#[trigger] a.user.attributes[k]) > RESERVED_ROLES
                && has_role(s.roles, a.user.attributes[k]),
    ensures
        s.set_account(i, a).ok(),
{
    let n = s.set_account(i, a);
    lemma_first_match(s.accounts, |x: AccountView| same_name(x.user.name, a.user.name));
    assert forall|x: int| 0 <= x < n.accounts.len() implies 0 < (#[trigger] n.accounts[x]).user.id
        < n.next_user by {
        assert(n.accounts[x].user.id == s.accounts[x].user.id);
    }
    assert forall|x: int, y: int| 0 <= x < y < n.accounts.len() implies (
    #[trigger] n.accounts[x]).user.id < (#[trigger] n.accounts[y]).user.id by {
        assert(n.accounts[x].user.id == s.accounts[x].user.id);
        assert(n.accounts[y].user.id == s.accounts[y].user.id);
    }
    assert forall|x: int, y: int|
        0 <= x < n.accounts.len() && 0 <= y < n.accounts.len() && x != y implies !same_name(
        (#[trigger] n.accounts[x]).user.name,
        (#[trigger] n.accounts[y]).user.name,
    ) by {
        assert(!same_name(s.accounts[x].user.name, s.accounts[y].user.name));
        if x == i {
            assert(n.accounts[y] == s.accounts[y]);
            if a.user.name != s.accounts[i].user.name {
                assert(!same_name(s.accounts[y].user.name, a.user.name));
                crate::names::lemma_same_name_equivalence(
                    s.accounts[y].user.name,
                    a.user.name,
                    a.user.name,
                );
            }
        } else if y == i {
            assert(n.accounts[x] == s.accounts[x]);
            if a.user.name != s.accounts[i].user.name {
                assert(!same_name(s.accounts[x].user.name, a.user.name));
            }
        } else {
            assert(n.accounts[x] == s.accounts[x]);
            assert(n.accounts[y] == s.accounts[y]);
        }
    }
    assert forall|x: int, k: int|
        0 <= x < n.accounts.len() && 0 <= k < n.accounts[x].user.attributes.len() implies {
        let id = #[trigger] n.accounts[x].user.attributes[k];
        id > RESERVED_ROLES && has_role(n.roles, id)
    } by {
        if x != i {
            assert(n.accounts[x] == s.accounts[x]);
            assert(s.accounts[x].user.attributes[k] > RESERVED_ROLES);
        }
    }
}

/// Replacing a channel keeps the rules when the id stays and the overrides
/// name roles that exist.
pub proof fn lemma_set_channel_ok(s: StoreView, i: int, c: ChannelView)
    requires
        s.ok(),
        0 <= i < s.channels.len(),
        c.id == s.channels[i].id,
        forall|id: usize| c.overrides.contains_key(id) ==> has_role(s.roles, id),
    ensures
        s.set_channel(i, c).ok(),
{
    let n = s.set_channel(i, c);
    assert forall|x: int| 0 <= x < n.channels.len() implies 0 < (#[trigger] n.channels[x]).id
        < n.next_channel by {
        assert(n.channels[x].id == s.channels[x].id);
    }
    assert forall|x: int, y: int| 0 <= x < y < n.channels.len() implies (
    #[trigger] n.channels[x]).id < (#[trigger] n.channels[y]).id by {
        assert(n.channels[x].id == s.channels[x].id);
        assert(n.channels[y].id == s.channels[y].id);
    }
    assert forall|x: int, id: usize|
        0 <= x < n.channels.len() && (#[trigger] n.channels[x]).overrides.contains_key(
            id,
        ) implies #[trigger] has_role(n.roles, id) by {
        if x != i {
            assert(n.channels[x] == s.channels[x]);
        }
    }
}

/// Deleting a channel with its messages keeps the rules.
pub proof fn lemma_delete_channel_ok(s: StoreView, i: int)
    requires
        s.ok(),
        0 <= i < s.channels.len(),
    ensures
        s.delete_channel(i).ok(),
{
    let n = s.delete_channel(i);
    lemma_keep_sorted(s.messages, outside_test(s.channels[i].id), s.next_message);
    assert forall|x: int, y: int| 0 <= x < y < n.channels.len() implies (
    #[trigger] n.channels[x]).id < (#[trigger] n.channels[y]).id by {
        let a = if x < i { x } else { x + 1 };
        let b = if y < i { y } else { y + 1 };
        assert(n.channels[x] == s.channels[a]);
        assert(n.channels[y] == s.channels[b]);
    }
    assert forall|x: int| 0 <= x < n.channels.len() implies 0 < (#[trigger] n.channels[x]).id
        < n.next_channel by {
        let a = if x < i { x } else { x + 1 };
        assert(n.channels[x] == s.channels[a]);
    }
    assert forall|x: int, id: usize|
        0 <= x < n.channels.len() && (#[trigger] n.channels[x]).overrides.contains_key(
            id,
        ) implies #[trigger] has_role(n.roles, id) by {
        let a = if x < i { x } else { x + 1 };
        assert(n.channels[x] == s.channels[a]);
    }
}

/// Replacing a message keeps the rules when the id stays.
pub proof fn lemma_set_message_ok(s: StoreView, i: int, m: MessageView)
    requires
        s.ok(),
        0 <= i < s.messages.len(),
        m.id == s.messages[i].id,
    ensures
        s.set_message(i, m).ok(),
{
    let n = s.set_message(i, m);
    assert forall|x: int| 0 <= x < n.messages.len() implies 0 < (#[trigger] n.messages[x]).id
        < n.next_message by {
        assert(n.messages[x].id == s.messages[x].id);
    }
    assert forall|x: int, y: int| 0 <= x < y < n.messages.len() implies (
    #[trigger] n.messages[x]).id < (#[trigger] n.messages[y]).id by {
        assert(n.messages[x].id == s.messages[x].id);
        assert(n.messages[y].id == s.messages[y].id);
    }
}

/// Deleting a message keeps the rules.
pub proof fn lemma_delete_message_ok(s: StoreView, i: int)
    requires
        s.ok(),
        0 <= i < s.messages.len(),
    ensures
        s.delete_message(i).ok(),
{
    let n = s.delete_message(i);
    assert forall|x: int, y: int| 0 <= x < y < n.messages.len() implies (
    #[trigger] n.messages[x]).id < (#[trigger] n.messages[y]).id by {
        let a = if x < i { x } else { x + 1 };
        let b = if y < i { y } else { y + 1 };
        assert(n.messages[x] == s.messages[a]);
        assert(n.messages[y] == s.messages[b]);
    }
    assert forall|x: int| 0 <= x < n.messages.len() implies 0 < (#[trigger] n.messages[x]).id
        < n.next_message by {
        let a = if x < i { x } else { x + 1 };
        assert(n.messages[x] == s.messages[a]);
    }
}

/// Putting back a role that the state takes keeps the rules.
pub proof fn lemma_put_role_ok(s: StoreView, r: AttributeView)
    requires
        s.ok(),
        s.takes_role(r),
    ensures
        s.put_role(r).ok(),
{
    let n = s.put_role(r);
    lemma_index_of(s.roles, r.id);
    assert forall|id: usize| has_role(s.roles, id) implies has_role(n.roles, id) by {
        crate::roles::lemma_has_role(s.roles, id);
        crate::roles::lemma_has_role(n.roles, id);
        let i = choose|i: int| 0 <= i < s.roles.len() && (#[trigger] s.roles[i]).id == id;
        assert(n.roles[i].id == id);
    }
    assert forall|i: int, j: int| 0 <= i < j < n.roles.len() implies (#[trigger] n.roles[i]).id != (
    #[trigger] n.roles[j]).id by {
        if i < s.roles.len() {
            assert(n.roles[i].id == s.roles[i].id);
        }
        if j < s.roles.len() {
            assert(n.roles[j].id == s.roles[j].id);
        }
    }
    assert forall|i: int| 2 <= i < n.roles.len() implies (#[trigger] n.roles[i]).pos == i - 1
        && n.roles[i].id > RESERVED_ROLES by {
        if i < s.roles.len() {
            assert(n.roles[i] == s.roles[i]);
        }
    }
    assert forall|i: int| 0 <= i < n.roles.len() implies (#[trigger] n.roles[i]).id < n.next_role by {
        if i < s.roles.len() {
            assert(n.roles[i].id == s.roles[i].id);
        }
    }
    assert forall|i: int, j: int|
        0 <= i < n.accounts.len() && 0 <= j < n.accounts[i].user.attributes.len() implies {
        let id = #[trigger] n.accounts[i].user.attributes[j];
        id > RESERVED_ROLES && has_role(n.roles, id)
    } by {
        let id = s.accounts[i].user.attributes[j];
        assert(has_role(s.roles, id));
    }
    assert forall|i: int, id: usize|
        0 <= i < n.channels.len() && (#[trigger] n.channels[i]).overrides.contains_key(
            id,
        ) implies #[trigger] has_role(n.roles, id) by {
        assert(has_role(s.roles, id));
    }
}

/// Putting back an account that the state takes keeps the rules.
pub proof fn lemma_put_account_ok(s: StoreView, a: AccountView)
    requires
        s.ok(),
        s.takes_account(a),
    ensures
        s.put_account(a).ok(),
{
    let n = s.put_account(a);
    let last = s.accounts.len() as int;
    lemma_first_match(s.accounts, |x: AccountView| same_name(x.user.name, a.user.name));
    assert forall|i: int| 0 <= i < n.accounts.len() implies 0 < (#[trigger] n.accounts[i]).user.id
        < n.next_user by {
        if i < last {
            assert(n.accounts[i] == s.accounts[i]);
        }
    }
    assert forall|i: int, j: int| 0 <= i < j < n.accounts.len() implies (
    #[trigger] n.accounts[i]).user.id < (#[trigger] n.accounts[j]).user.id by {
        assert(n.accounts[i] == s.accounts[i]);
        if j < last {
            assert(n.accounts[j] == s.accounts[j]);
        }
    }
    assert forall|i: int, j: int|
        0 <= i < n.accounts.len() && 0 <= j < n.accounts.len() && i != j implies !same_name(
        (#[trigger] n.accounts[i]).user.name,
        (#[trigger] n.accounts[j]).user.name,
    ) by {
        if i == last {
            assert(n.accounts[j] == s.accounts[j]);
            assert(!same_name(s.accounts[j].user.name, a.user.name));
            crate::names::lemma_same_name_equivalence(
                s.accounts[j].user.name,
                a.user.name,
                a.user.name,
            );
        } else if j == last {
            assert(n.accounts[i] == s.accounts[i]);
            assert(!same_name(s.accounts[i].user.name, a.user.name));
        } else {
            assert(n.accounts[i] == s.accounts[i]);
            assert(n.accounts[j] == s.accounts[j]);
        }
    }
    assert forall|i: int, k: int|
        0 <= i < n.accounts.len() && 0 <= k < n.accounts[i].user.attributes.len() implies {
        let id = #[trigger] n.accounts[i].user.attributes[k];
        id > RESERVED_ROLES && has_role(n.roles, id)
    } by {
        if i < last {
            assert(n.accounts[i] == s.accounts[i]);
            assert(s.accounts[i].user.attributes[k] > RESERVED_ROLES);
        } else {
            assert(a.user.attributes[k] > RESERVED_ROLES);
        }
    }
}

/// Putting back a channel that the state takes keeps the rules.
pub proof fn lemma_put_channel_ok(s: StoreView, c: ChannelView)
    requires
        s.ok(),
        s.takes_channel(c),
    ensures
        s.put_channel(c).ok(),
{
    let n = s.put_channel(c);
    let last = s.channels.len() as int;
    assert forall|i: int| 0 <= i < n.channels.len() implies 0 < (#[trigger] n.channels[i]).id
        < n.next_channel by {
        if i < last {
            assert(n.channels[i] == s.channels[i]);
        }
    }
    assert forall|i: int, j: int| 0 <= i < j < n.channels.len() implies (
    #[trigger] n.channels[i]).id < (#[trigger] n.channels[j]).id by {
        assert(n.channels[i] == s.channels[i]);
        if j < last {
            assert(n.channels[j] == s.channels[j]);
        }
    }
    assert forall|i: int, id: usize|
        0 <= i < n.channels.len() && (#[trigger] n.channels[i]).overrides.contains_key(
            id,
        ) implies #[trigger] has_role(n.roles, id) by {
        if i < last {
            assert(n.channels[i] == s.channels[i]);
        }
    }
}

/// Putting back a message that the state takes keeps the rules.
pub proof fn lemma_put_message_ok(s: StoreView, m: MessageView)
    requires
        s.ok(),
        s.takes_message(m),
    ensures
        s.put_message(m).ok(),
{
    let n = s.put_message(m);
    let last = s.messages.len() as int;
    assert forall|i: int| 0 <= i < n.messages.len() implies 0 < (#[trigger] n.messages[i]).id
        < n.next_message by {
        if i < last {
            assert(n.messages[i] == s.messages[i]);
        }
    }
    assert forall|i: int, j: int| 0 <= i < j < n.messages.len() implies (
    #[trigger] n.messages[i]).id < (#[trigger] n.messages[j]).id by {
        assert(n.messages[i] == s.messages[i]);
        if j < last {
            assert(n.messages[j] == s.messages[j]);
        }
    }
}

/// Raising the id counters keeps the rules.
pub proof fn lemma_put_counters_ok(
    s: StoreView,
    role: usize,
    user: usize,
    channel: usize,
    message: usize,
)
    requires
        s.ok(),
        s.takes_counters(role, user, channel, message),
    ensures
        s.put_counters(role, user, channel, message).ok(),
{
    let n = s.put_counters(role, user, channel, message);
    assert forall|i: int| 0 <= i < n.roles.len() implies (#[trigger] n.roles[i]).id < n.next_role by {
        assert(s.roles[i].id < s.next_role);
    }
    assert forall|i: int| 0 <= i < n.accounts.len() implies 0 < (#[trigger] n.accounts[i]).user.id
        < n.next_user by {
        assert(s.accounts[i].user.id < s.next_user);
    }
    assert forall|i: int| 0 <= i < n.channels.len() implies 0 < (#[trigger] n.channels[i]).id
        < n.next_channel by {
        assert(s.channels[i].id < s.next_channel);
    }
    assert forall|i: int| 0 <= i < n.messages.len() implies 0 < (#[trigger] n.messages[i]).id
        < n.next_message by {
        assert(s.messages[i].id < s.next_message);
    }
}

/// Messages whose ids grow along the list keep that order, and their
/// bounds, when some of them are taken out.
pub proof fn lemma_keep_sorted(ms: Seq<MessageView>, p: spec_fn(MessageView) -> bool, next: usize)
    requires
        forall|i: int| 0 <= i < ms.len() ==> 0 < (#[trigger] ms[i]).id < next,
        forall|i: int, j: int| 0 <= i < j < ms.len() ==> (#[trigger] ms[i]).id < (#[trigger] ms[j]).id,
    ensures
        forall|i: int| 0 <= i < keep(ms, p).len() ==> 0 < (#[trigger] keep(ms, p)[i]).id < next,
        forall|i: int, j: int|
            0 <= i < j < keep(ms, p).len() ==> (#[trigger] keep(ms, p)[i]).id < (#[trigger] keep(
                ms,
                p,
            )[j]).id,
    decreases ms.len(),
{
    if ms.len() > 0 {
        let head = ms.drop_last();
        assert forall|i: int| 0 <= i < head.len() implies 0 < (#[trigger] head[i]).id < next by {
            assert(head[i] == ms[i]);
        }
        assert forall|i: int, j: int| 0 <= i < j < head.len() implies (#[trigger] head[i]).id < (
        #[trigger] head[j]).id by {
            assert(head[i] == ms[i]);
            assert(head[j] == ms[j]);
        }
        lemma_keep_sorted(head, p, next);
        lemma_keep(head, p);
        let out = keep(ms, p);
        assert forall|i: int| 0 <= i < out.len() implies 0 < (#[trigger] out[i]).id < next by {
            if i >= keep(head, p).len() {
                assert(out[i] == ms[ms.len() - 1]);
            }
        }
        assert forall|i: int, j: int| 0 <= i < j < out.len() implies (#[trigger] out[i]).id < (
        #[trigger] out[j]).id by {
            if j >= keep(head, p).len() {
                assert(out[j] == ms[ms.len() - 1]);
                let x = keep(head, p)[i];
                assert(head.contains(x));
                let a = choose|a: int| 0 <= a < head.len() && head[a] == x;
                assert(ms[a] == x);
            }
        }
    }
}

} // verus!
