//! The persistent state of the server, held in memory: roles, accounts,
//! channels and messages, with the rules that every change keeps.

use crate::consts::{RESERVED_ROLES, ROLE_BOTS, ROLE_HUMANS};
use crate::names::{names_match, same_name};
use crate::roles::{
    at_pos, bots_name, has_role, humans_name, index_of, lemma_create_ids, lemma_create_ok,
    lemma_delete_ids, lemma_delete_ok, lemma_has_role, lemma_index_of, lemma_update_ids,
    lemma_update_ok, op_allowed, others, renumber, RoleOp,
};
use crate::seqs::{keep, least, lemma_first_match, lemma_first_match_is};
use crate::state::{
    account_views, account_without_role, bound_test, bounded, channel_views,
    channel_without_role, in_bound, known_overrides, lemma_delete_channel_ok,
    lemma_delete_message_ok, lemma_put_account_ok, lemma_put_channel_ok, lemma_put_counters_ok,
    lemma_put_message_ok, lemma_put_role_ok, lemma_set_account_ok, lemma_set_channel_ok,
    lemma_set_message_ok, lemma_without, message_views, outside_test, without, Account,
    AccountView, Bound, StoreView,
};
use crate::types::{
    attribute_views, Attribute, AttributeView, Channel, ChannelView, Message, MessageView, User,
    UserView,
};
use std::collections::HashMap;
use vstd::prelude::*;

verus! {

fn renumber_roles(roles: &mut Vec<Attribute>)
    requires
        old(roles).len() >= 2,
    ensures
        attribute_views(final(roles)@) == renumber(attribute_views(old(roles)@)),
{
    let ghost before = attribute_views(roles@);
    let mut i: usize = 2;
    while i < roles.len()
        invariant
            2 <= i <= roles.len(),
            roles.len() == before.len(),
            forall|j: int|
                0 <= j < roles.len() ==> (#[trigger] roles@[j])@ == (if 2 <= j < i {
                    at_pos(before[j], (j - 1) as usize)
                } else {
                    before[j]
                }),
        decreases roles.len() - i,
    {
        roles[i].pos = i - 1;
        i += 1;
    }
    assert(attribute_views(roles@) =~= renumber(before));
}

fn ids_without(ids: &Vec<usize>, id: usize) -> (out: Vec<usize>)
    ensures
        out@ == without(ids@, id),
{
    let mut out: Vec<usize> = Vec::new();
    let mut i: usize = 0;
    while i < ids.len()
        invariant
            i <= ids.len(),
            out@ == without(ids@.take(i as int), id),
        decreases ids.len() - i,
    {
        assert(ids@.take(i + 1).drop_last() =~= ids@.take(i as int));
        if ids[i] != id {
            out.push(ids[i]);
        }
        i += 1;
    }
    assert(ids@.take(ids.len() as int) =~= ids@);
    out
}

fn fits_bound(m: &Message, channel: usize, bound: Bound) -> (fits: bool)
    ensures
        fits == in_bound(m@, channel, bound),
{
    m.channel == channel && match bound {
        Bound::Latest => true,
        Bound::After(time) => m.timestamp >= time,
        Bound::Before(time) => m.timestamp <= time,
    }
}

/// The persistent state of a server.
pub struct Store {
    roles: Vec<Attribute>,
    accounts: Vec<Account>,
    channels: Vec<Channel>,
    messages: Vec<Message>,
    next_role: usize,
    next_user: usize,
    next_channel: usize,
    next_message: usize,
}

impl View for Store {
    type V = StoreView;

    closed spec fn view(&self) -> StoreView {
        StoreView {
            roles: attribute_views(self.roles@),
            accounts: account_views(self.accounts@),
            channels: channel_views(self.channels@),
            messages: message_views(self.messages@),
            next_role: self.next_role,
            next_user: self.next_user,
            next_channel: self.next_channel,
            next_message: self.next_message,
        }
    }
}

fn text_of(s: &str) -> (out: String)
    ensures
        out@ == s@,
{
    s.to_owned()
}

impl Store {
    /// Whether the state keeps its rules.
    pub open spec fn wf(&self) -> bool {
        self@.ok()
    }

    /// The state of a server that starts for the first time: the two
    /// system roles, which allow reading and writing, and nothing else.
    pub fn new() -> (store: Store)
        ensures
            store.wf(),
            store@.roles.len() == 2,
            store@.roles[0] == (AttributeView {
                allow: 3,
                deny: 0,
                id: ROLE_HUMANS,
                name: humans_name(),
                pos: 0,
                unassignable: true,
            }),
            store@.roles[1] == (AttributeView {
                allow: 3,
                deny: 0,
                id: ROLE_BOTS,
                name: bots_name(),
                pos: 0,
                unassignable: true,
            }),
            store@.accounts.len() == 0,
            store@.channels.len() == 0,
            store@.messages.len() == 0,
            store@.next_role == 3,
            store@.next_user == 1,
            store@.next_channel == 1,
            store@.next_message == 1,
    {
        let mut roles: Vec<Attribute> = Vec::new();
        roles.push(
            Attribute {
                allow: 3,
                deny: 0,
                id: ROLE_HUMANS,
                name: text_of("@humans"),
                pos: 0,
                unassignable: true,
            },
        );
        roles.push(
            Attribute {
                allow: 3,
                deny: 0,
                id: ROLE_BOTS,
                name: text_of("@bots"),
                pos: 0,
                unassignable: true,
            },
        );
        Store {
            roles,
            accounts: Vec::new(),
            channels: Vec::new(),
            messages: Vec::new(),
            next_role: 3,
            next_user: 1,
            next_channel: 1,
            next_message: 1,
        }
    }

    /// The role table, in the order of the positions.
    pub fn roles(&self) -> (out: &Vec<Attribute>)
        ensures
            attribute_views(out@) == self@.roles,
    {
        &self.roles
    }

    /// The accounts, in the order of their ids.
    pub fn accounts(&self) -> (out: &Vec<Account>)
        ensures
            account_views(out@) == self@.accounts,
    {
        &self.accounts
    }

    /// The channels, in the order of their ids.
    pub fn channels(&self) -> (out: &Vec<Channel>)
        ensures
            channel_views(out@) == self@.channels,
    {
        &self.channels
    }

    /// The messages, in the order of their ids.
    pub fn messages(&self) -> (out: &Vec<Message>)
        ensures
            message_views(out@) == self@.messages,
    {
        &self.messages
    }

    /// The role at an index of the table.
    pub fn role(&self, i: usize) -> (out: &Attribute)
        requires
            i < self@.roles.len(),
        ensures
            out@ == self@.roles[i as int],
    {
        &self.roles[i]
    }

    /// The account at an index.
    pub fn account(&self, i: usize) -> (out: &Account)
        requires
            i < self@.accounts.len(),
        ensures
            out@ == self@.accounts[i as int],
    {
        &self.accounts[i]
    }

    /// The channel at an index.
    pub fn channel(&self, i: usize) -> (out: &Channel)
        requires
            i < self@.channels.len(),
        ensures
            out@ == self@.channels[i as int],
    {
        &self.channels[i]
    }

    /// The message at an index.
    pub fn message(&self, i: usize) -> (out: &Message)
        requires
            i < self@.messages.len(),
        ensures
            out@ == self@.messages[i as int],
    {
        &self.messages[i]
    }

    /// Finds a role by its id.
    pub fn find_role(&self, id: usize) -> (found: Option<usize>)
        ensures
            match found {
                Some(i) => i == self@.role_index(id) && i < self@.roles.len(),
                None => self@.role_index(id) < 0,
            },
    {
        let ghost t = self@.roles;
        proof {
            lemma_index_of(t, id);
        }
        let mut i: usize = 0;
        while i < self.roles.len()
            invariant
                i <= self.roles.len(),
                t == attribute_views(self.roles@),
                t == self@.roles,
                forall|j: int| 0 <= j < i ==> (#[trigger] t[j]).id != id,
            decreases self.roles.len() - i,
        {
            if self.roles[i].id == id {
                proof {
                    lemma_index_of(t, id);
                    assert(t[i as int].id == id);
                }
                return Some(i);
            }
            i += 1;
        }
        None
    }

    /// Finds an account by the id of its user.
    pub fn find_user(&self, id: usize) -> (found: Option<usize>)
        ensures
            match found {
                Some(i) => i == self@.account_index(id) && i < self@.accounts.len(),
                None => self@.account_index(id) < 0,
            },
    {
        let ghost s = self@.accounts;
        let ghost p = |a: AccountView| a.user.id == id;
        proof {
            lemma_first_match(s, p);
        }
        let mut i: usize = 0;
        while i < self.accounts.len()
            invariant
                i <= self.accounts.len(),
                s == account_views(self.accounts@),
                p == (|a: AccountView| a.user.id == id),
                forall|j: int| 0 <= j < i ==> !p(#[trigger] s[j]),
            decreases self.accounts.len() - i,
        {
            if self.accounts[i].user.id == id {
                proof {
                    lemma_first_match_is(s, p, i as int);
                }
                return Some(i);
            }
            i += 1;
        }
        None
    }

    /// Finds an account by the name of its user, without regard to the
    /// case of ASCII letters.
    pub fn find_user_by_name(&self, name: &str) -> (found: Option<usize>)
        ensures
            match found {
                Some(i) => i == self@.name_index(name@) && i < self@.accounts.len(),
                None => self@.name_index(name@) < 0,
            },
    {
        let ghost s = self@.accounts;
        let ghost p = |a: AccountView| same_name(a.user.name, name@);
        proof {
            lemma_first_match(s, p);
        }
        let mut i: usize = 0;
        while i < self.accounts.len()
            invariant
                i <= self.accounts.len(),
                s == account_views(self.accounts@),
                p == (|a: AccountView| same_name(a.user.name, name@)),
                forall|j: int| 0 <= j < i ==> !p(#[trigger] s[j]),
            decreases self.accounts.len() - i,
        {
            if names_match(self.accounts[i].user.name.as_str(), name) {
                proof {
                    lemma_first_match_is(s, p, i as int);
                }
                return Some(i);
            }
            i += 1;
        }
        None
    }

    /// Finds a channel by its id.
    pub fn find_channel(&self, id: usize) -> (found: Option<usize>)
        ensures
            match found {
                Some(i) => i == self@.channel_index(id) && i < self@.channels.len(),
                None => self@.channel_index(id) < 0,
            },
    {
        let ghost s = self@.channels;
        let ghost p = |c: ChannelView| c.id == id;
        proof {
            lemma_first_match(s, p);
        }
        let mut i: usize = 0;
        while i < self.channels.len()
            invariant
                i <= self.channels.len(),
                s == channel_views(self.channels@),
                p == (|c: ChannelView| c.id == id),
                forall|j: int| 0 <= j < i ==> !p(#[trigger] s[j]),
            decreases self.channels.len() - i,
        {
            if self.channels[i].id == id {
                proof {
                    lemma_first_match_is(s, p, i as int);
                }
                return Some(i);
            }
            i += 1;
        }
        None
    }

    /// Finds a message by its id.
    pub fn find_message(&self, id: usize) -> (found: Option<usize>)
        ensures
            match found {
                Some(i) => i == self@.message_index(id) && i < self@.messages.len(),
                None => self@.message_index(id) < 0,
            },
    {
        let ghost s = self@.messages;
        let ghost p = |m: MessageView| m.id == id;
        proof {
            lemma_first_match(s, p);
        }
        let mut i: usize = 0;
        while i < self.messages.len()
            invariant
                i <= self.messages.len(),
                s == message_views(self.messages@),
                p == (|m: MessageView| m.id == id),
                forall|j: int| 0 <= j < i ==> !p(#[trigger] s[j]),
            decreases self.messages.len() - i,
        {
            if self.messages[i].id == id {
                proof {
                    lemma_first_match_is(s, p, i as int);
                }
                return Some(i);
            }
            i += 1;
        }
        None
    }

    /// Whether a banned account last logged in from this address.
    pub fn banned_address(&self, ip: u128) -> (banned: bool)
        ensures
            banned == self@.banned_address(ip),
    {
        let ghost s = self@.accounts;
        let mut i: usize = 0;
        while i < self.accounts.len()
            invariant
                i <= self.accounts.len(),
                s == account_views(self.accounts@),
                s == self@.accounts,
                forall|j: int| 0 <= j < i ==> !((#[trigger] s[j]).user.ban && s[j].last_ip == ip),
            decreases self.accounts.len() - i,
        {
            if self.accounts[i].user.ban && self.accounts[i].last_ip == ip {
                assert(s[i as int].user.ban && s[i as int].last_ip == ip);
                return true;
            }
            i += 1;
        }
        false
    }

    /// Whether the state has room for a new entry of any kind.
    pub open spec fn roomy(&self) -> bool {
        self@.roomy()
    }

    /// Tests whether the state has room for a new entry of any kind.
    pub fn has_room(&self) -> (ok: bool)
        ensures
            ok == self.roomy(),
    {
        self.roles.len() < usize::MAX && self.next_role < usize::MAX && self.next_user
            < usize::MAX && self.next_channel < usize::MAX && self.next_message < usize::MAX
    }

    /// The id that the next role gets.
    pub fn next_role_id(&self) -> (id: usize)
        ensures
            id == self@.next_role,
    {
        self.next_role
    }

    /// Puts a new role into the table at its position; the roles from that
    /// position on move up by one.
    pub fn create_role(&mut self, role: Attribute)
        requires
            old(self).wf(),
            old(self).roomy(),
            role.id == old(self)@.next_role,
            1 <= role.pos <= others(old(self)@.roles) + 1,
        ensures
            final(self).wf(),
            final(self)@ == old(self)@.create_role(role@),
    {
        let ghost s = self@;
        let ghost r = role@;
        proof {
            lemma_index_of(s.roles, r.id);
            assert(s.roles[1].id < s.next_role);
            assert(!has_role(s.roles, r.id)) by {
                if has_role(s.roles, r.id) {
                    assert(s.roles[index_of(s.roles, r.id)].id < s.next_role);
                }
            }
            assert(op_allowed(s.roles, RoleOp::Create(r)));
            lemma_create_ok(s.roles, r);
        }
        let at: usize = role.pos + 1;
        self.roles.insert(at, role);
        assert(attribute_views(self.roles@) =~= s.roles.insert(r.pos + 1, r));
        renumber_roles(&mut self.roles);
        self.next_role = self.next_role + 1;
        proof {
            let n = self@;
            assert(n == s.create_role(r));
            assert forall|i: int| 0 <= i < n.roles.len() implies (#[trigger] n.roles[i]).id
                < n.next_role by {
                lemma_create_ids(s.roles, r, n.roles[i].id);
                lemma_has_role(n.roles, n.roles[i].id);
                if n.roles[i].id != r.id {
                    lemma_index_of(s.roles, n.roles[i].id);
                    assert(s.roles[index_of(s.roles, n.roles[i].id)].id < s.next_role);
                }
            }
            assert forall|i: int, k: int|
                0 <= i < n.accounts.len() && 0 <= k < n.accounts[i].user.attributes.len() implies {
                let id = #[trigger] n.accounts[i].user.attributes[k];
                id > RESERVED_ROLES && has_role(n.roles, id)
            } by {
                let id = s.accounts[i].user.attributes[k];
                lemma_create_ids(s.roles, r, id);
            }
            assert forall|i: int, id: usize|
                0 <= i < n.channels.len() && (#[trigger] n.channels[i]).overrides.contains_key(
                    id,
                ) implies #[trigger] has_role(n.roles, id) by {
                assert(has_role(s.roles, id));
                lemma_create_ids(s.roles, r, id);
            }
        }
    }

    /// Replaces the role at index `k`. A system role stays in its place; any
    /// other role moves to the position that `role` names.
    pub fn update_role(&mut self, k: usize, role: Attribute)
        requires
            old(self).wf(),
            k == old(self)@.role_index(role.id),
            op_allowed(old(self)@.roles, RoleOp::Update(role@)),
        ensures
            final(self).wf(),
            final(self)@ == old(self)@.update_role(k as int, role@),
    {
        let ghost s = self@;
        let ghost r = role@;
        proof {
            lemma_index_of(s.roles, r.id);
            lemma_update_ok(s.roles, r);
        }
        if k < 2 {
            self.roles[k] = role;
            assert(attribute_views(self.roles@) =~= s.roles.update(k as int, r));
        } else {
            assert(s.roles.len() == self.roles.len());
            assert(role.pos <= others(s.roles));
            let at: usize = role.pos + 1;
            self.roles.remove(k);
            assert(attribute_views(self.roles@) =~= s.roles.remove(k as int));
            self.roles.insert(at, role);
            assert(attribute_views(self.roles@) =~= s.roles.remove(k as int).insert(r.pos + 1, r));
            renumber_roles(&mut self.roles);
        }
        proof {
            let n = self@;
            assert(n == s.update_role(k as int, r));
            assert forall|i: int| 0 <= i < n.roles.len() implies (#[trigger] n.roles[i]).id
                < n.next_role by {
                let id = n.roles[i].id;
                lemma_update_ids(s.roles, k as int, r, id);
                lemma_has_role(n.roles, id);
                lemma_index_of(s.roles, id);
                assert(s.roles[index_of(s.roles, id)].id < s.next_role);
            }
            assert forall|i: int, j: int|
                0 <= i < n.accounts.len() && 0 <= j < n.accounts[i].user.attributes.len() implies {
                let id = #[trigger] n.accounts[i].user.attributes[j];
                id > RESERVED_ROLES && has_role(n.roles, id)
            } by {
                let id = s.accounts[i].user.attributes[j];
                lemma_update_ids(s.roles, k as int, r, id);
            }
            assert forall|i: int, id: usize|
                0 <= i < n.channels.len() && (#[trigger] n.channels[i]).overrides.contains_key(
                    id,
                ) implies #[trigger] has_role(n.roles, id) by {
                assert(has_role(s.roles, id));
                lemma_update_ids(s.roles, k as int, r, id);
            }
        }
    }

    /// Deletes the role at index `k`, which is not a system role, and gives
    /// it back. The roles behind it move down by one; no account lists the
    /// role any more and no channel keeps an override for it.
    pub fn delete_role(&mut self, k: usize) -> (gone: Attribute)
        requires
            old(self).wf(),
            2 <= k < old(self)@.roles.len(),
        ensures
            final(self).wf(),
            gone@ == old(self)@.roles[k as int],
            final(self)@ == old(self)@.delete_role(k as int),
    {
        broadcast use vstd::std_specs::hash::group_hash_axioms;

        let ghost s = self@;
        let ghost id = s.roles[k as int].id;
        proof {
            lemma_delete_ok(s.roles, k as int);
        }
        let gone = self.roles.remove(k);
        assert(attribute_views(self.roles@) =~= s.roles.remove(k as int));
        renumber_roles(&mut self.roles);
        let ghost mid = *self;
        let mut i: usize = 0;
        while i < self.accounts.len()
            invariant
                i <= self.accounts.len(),
                self.accounts.len() == s.accounts.len(),
                gone.id == id,
                self.roles == mid.roles,
                self.channels == mid.channels,
                self.messages == mid.messages,
                self.next_role == mid.next_role,
                self.next_user == mid.next_user,
                self.next_channel == mid.next_channel,
                self.next_message == mid.next_message,
                forall|j: int|
                    0 <= j < self.accounts.len() ==> (#[trigger] self.accounts@[j])@ == (if j < i {
                        account_without_role(s.accounts[j], id)
                    } else {
                        s.accounts[j]
                    }),
            decreases self.accounts.len() - i,
        {
            let kept = ids_without(&self.accounts[i].user.attributes, gone.id);
            self.accounts[i].user.attributes = kept;
            i += 1;
        }
        let ghost late = *self;
        let mut c: usize = 0;
        while c < self.channels.len()
            invariant
                c <= self.channels.len(),
                self.channels.len() == s.channels.len(),
                gone.id == id,
                self.roles == late.roles,
                self.accounts == late.accounts,
                self.messages == late.messages,
                self.next_role == late.next_role,
                self.next_user == late.next_user,
                self.next_channel == late.next_channel,
                self.next_message == late.next_message,
                forall|j: int|
                    0 <= j < self.channels.len() ==> (#[trigger] self.channels@[j])@ == (if j < c {
                        channel_without_role(s.channels[j], id)
                    } else {
                        s.channels[j]
                    }),
            decreases self.channels.len() - c,
        {
            self.channels[c].overrides.remove(&gone.id);
            c += 1;
        }
        proof {
            let n = self@;
            assert(n.accounts =~= s.delete_role(k as int).accounts);
            assert(n.channels =~= s.delete_role(k as int).channels);
            assert(n == s.delete_role(k as int));
            assert forall|i: int| 0 <= i < n.roles.len() implies (#[trigger] n.roles[i]).id
                < n.next_role by {
                let x = n.roles[i].id;
                lemma_delete_ids(s.roles, k as int, x);
                lemma_has_role(n.roles, x);
                lemma_index_of(s.roles, x);
                assert(s.roles[index_of(s.roles, x)].id < s.next_role);
            }
            assert forall|i: int, j: int|
                0 <= i < n.accounts.len() && 0 <= j < n.accounts[i].user.attributes.len() implies {
                let x = #[trigger] n.accounts[i].user.attributes[j];
                x > RESERVED_ROLES && has_role(n.roles, x)
            } by {
                let x = n.accounts[i].user.attributes[j];
                let list = s.accounts[i].user.attributes;
                lemma_without(list, id);
                assert(without(list, id)[j] == x);
                let m = choose|m: int| 0 <= m < list.len() && list[m] == x;
                assert(s.accounts[i].user.attributes[m] == x);
                lemma_delete_ids(s.roles, k as int, x);
            }
            assert forall|i: int, x: usize|
                0 <= i < n.channels.len() && (#[trigger] n.channels[i]).overrides.contains_key(
                    x,
                ) implies #[trigger] has_role(n.roles, x) by {
                assert(s.channels[i].overrides.contains_key(x));
                assert(has_role(s.roles, x));
                lemma_delete_ids(s.roles, k as int, x);
            }
        }
        gone
    }

    /// Adds an account under the next id, with no roles and not banned, and
    /// gives back its user.
    pub fn create_account(
        &mut self,
        name: String,
        bot: bool,
        password: String,
        token: String,
        ip: u128,
    ) -> (user: User)
        requires
            old(self).wf(),
            old(self).roomy(),
            old(self)@.name_index(name@) < 0,
        ensures
            final(self).wf(),
            user@ == (UserView {
                attributes: Seq::empty(),
                ban: false,
                bot,
                id: old(self)@.next_user,
                name: name@,
            }),
            final(self)@ == old(self)@.add_account(
                AccountView { user: user@, password: password@, token: token@, last_ip: ip },
            ),
    {
        let ghost s = self@;
        let user = User {
            attributes: Vec::new(),
            ban: false,
            bot,
            id: self.next_user,
            name: name.clone(),
        };
        let account = Account {
            user: User { attributes: Vec::new(), ban: false, bot, id: self.next_user, name },
            password,
            token,
            last_ip: ip,
        };
        let ghost a = account@;
        assert(a.user.attributes =~= Seq::<usize>::empty());
        assert(user@.attributes =~= Seq::<usize>::empty());
        self.accounts.push(account);
        self.next_user = self.next_user + 1;
        proof {
            assert(self@.accounts =~= s.accounts.push(a));
            assert(s.add_account(a) == s.put_account(a));
            lemma_put_account_ok(s, a);
        }
        user
    }

    /// Bans or unbans the account at index `i`.
    pub fn set_ban(&mut self, i: usize, ban: bool)
        requires
            old(self).wf(),
            i < old(self)@.accounts.len(),
        ensures
            final(self).wf(),
            final(self)@ == old(self)@.set_account(
                i as int,
                AccountView {
                    user: UserView { ban, ..old(self)@.accounts[i as int].user },
                    ..old(self)@.accounts[i as int]
                },
            ),
    {
        let ghost s = self@;
        let ghost a = AccountView {
            user: UserView { ban, ..s.accounts[i as int].user },
            ..s.accounts[i as int]
        };
        self.accounts[i].user.ban = ban;
        proof {
            assert(self@.accounts =~= s.accounts.update(i as int, a));
            lemma_set_account_ok(s, i as int, a);
        }
    }

    /// Notes the address that the account at index `i` logged in from.
    pub fn set_last_ip(&mut self, i: usize, ip: u128)
        requires
            old(self).wf(),
            i < old(self)@.accounts.len(),
        ensures
            final(self).wf(),
            final(self)@ == old(self)@.set_account(
                i as int,
                AccountView { last_ip: ip, ..old(self)@.accounts[i as int] },
            ),
    {
        let ghost s = self@;
        let ghost a = AccountView { last_ip: ip, ..s.accounts[i as int] };
        self.accounts[i].last_ip = ip;
        proof {
            assert(self@.accounts =~= s.accounts.update(i as int, a));
            lemma_set_account_ok(s, i as int, a);
        }
    }

    /// Replaces the password hash of the account at index `i`.
    pub fn set_password(&mut self, i: usize, password: String)
        requires
            old(self).wf(),
            i < old(self)@.accounts.len(),
        ensures
            final(self).wf(),
            final(self)@ == old(self)@.set_account(
                i as int,
                AccountView { password: password@, ..old(self)@.accounts[i as int] },
            ),
    {
        let ghost s = self@;
        let ghost a = AccountView { password: password@, ..s.accounts[i as int] };
        self.accounts[i].password = password;
        proof {
            assert(self@.accounts =~= s.accounts.update(i as int, a));
            lemma_set_account_ok(s, i as int, a);
        }
    }

    /// Replaces the token of the account at index `i`.
    pub fn set_token(&mut self, i: usize, token: String)
        requires
            old(self).wf(),
            i < old(self)@.accounts.len(),
        ensures
            final(self).wf(),
            final(self)@ == old(self)@.set_account(
                i as int,
                AccountView { token: token@, ..old(self)@.accounts[i as int] },
            ),
    {
        let ghost s = self@;
        let ghost a = AccountView { token: token@, ..s.accounts[i as int] };
        self.accounts[i].token = token;
        proof {
            assert(self@.accounts =~= s.accounts.update(i as int, a));
            lemma_set_account_ok(s, i as int, a);
        }
    }

    /// Renames the account at index `i` to a name that no account has.
    pub fn set_name(&mut self, i: usize, name: String)
        requires
            old(self).wf(),
            i < old(self)@.accounts.len(),
            old(self)@.name_index(name@) < 0,
        ensures
            final(self).wf(),
            final(self)@ == old(self)@.set_account(
                i as int,
                AccountView {
                    user: UserView { name: name@, ..old(self)@.accounts[i as int].user },
                    ..old(self)@.accounts[i as int]
                },
            ),
    {
        let ghost s = self@;
        let ghost fresh = name@;
        let ghost a = AccountView {
            user: UserView { name: name@, ..s.accounts[i as int].user },
            ..s.accounts[i as int]
        };
        self.accounts[i].user.name = name;
        proof {
            assert(self@.accounts =~= s.accounts.update(i as int, a));
            lemma_set_account_ok(s, i as int, a);
        }
    }

    /// Replaces the roles of the account at index `i` by roles that exist
    /// and are not system roles.
    pub fn set_roles(&mut self, i: usize, roles: Vec<usize>)
        requires
            old(self).wf(),
            i < old(self)@.accounts.len(),
            forall|k: int|
                0 <= k < roles@.len() ==> (#[trigger] roles@[k]) > RESERVED_ROLES && has_role(
                    old(self)@.roles,
                    roles@[k],
                ),
        ensures
            final(self).wf(),
            final(self)@ == old(self)@.set_account(
                i as int,
                AccountView {
                    user: UserView { attributes: roles@, ..old(self)@.accounts[i as int].user },
                    ..old(self)@.accounts[i as int]
                },
            ),
    {
        let ghost s = self@;
        let ghost a = AccountView {
            user: UserView { attributes: roles@, ..s.accounts[i as int].user },
            ..s.accounts[i as int]
        };
        self.accounts[i].user.attributes = roles;
        proof {
            assert(self@.accounts =~= s.accounts.update(i as int, a));
            lemma_set_account_ok(s, i as int, a);
        }
    }

    fn known(&self, overrides: &HashMap<usize, (u8, u8)>) -> (out: HashMap<usize, (u8, u8)>)
        ensures
            out@ == known_overrides(self@.roles, overrides@),
    {
        broadcast use vstd::std_specs::hash::group_hash_axioms;

        let ghost t = self@.roles;
        let mut out: HashMap<usize, (u8, u8)> = HashMap::new();
        let mut i: usize = 0;
        assert(out@ =~= known_overrides(t.take(0), overrides@)) by {
            assert forall|id: usize| !has_role(t.take(0), id) by {
                lemma_has_role(t.take(0), id);
            }
        }
        while i < self.roles.len()
            invariant
                i <= self.roles.len(),
                t == attribute_views(self.roles@),
                out@ == known_overrides(t.take(i as int), overrides@),
            decreases self.roles.len() - i,
        {
            let id: usize = self.roles[i].id;
            let ghost before = out@;
            match overrides.get(&id) {
                Some(pair) => {
                    out.insert(id, *pair);
                },
                None => {},
            }
            proof {
                let short = t.take(i as int);
                let long = t.take(i + 1);
                assert forall|x: usize| has_role(long, x) <==> has_role(short, x) || x == id by {
                    lemma_has_role(long, x);
                    lemma_has_role(short, x);
                    if has_role(short, x) {
                        let j = choose|j: int| 0 <= j < short.len() && (#[trigger] short[j]).id == x;
                        assert(long[j].id == x);
                    }
                    if x == id {
                        assert(long[i as int].id == x);
                    }
                    if has_role(long, x) {
                        let j = choose|j: int| 0 <= j < long.len() && (#[trigger] long[j]).id == x;
                        if j < i {
                            assert(short[j].id == x);
                        }
                    }
                }
                assert(out@ =~= known_overrides(long, overrides@));
            }
            i += 1;
        }
        assert(t.take(self.roles.len() as int) =~= t);
        out
    }

    /// Adds a channel under the next id and gives back a copy of it. An
    /// override for a role that does not exist is dropped.
    pub fn create_channel(
        &mut self,
        name: String,
        overrides: &HashMap<usize, (u8, u8)>,
    ) -> (channel: Channel)
        requires
            old(self).wf(),
            old(self).roomy(),
        ensures
            final(self).wf(),
            channel@ == (ChannelView {
                id: old(self)@.next_channel,
                name: name@,
                overrides: known_overrides(old(self)@.roles, overrides@),
            }),
            final(self)@ == old(self)@.add_channel(channel@),
    {
        let ghost s = self@;
        let kept = self.known(overrides);
        let channel = Channel { id: self.next_channel, name, overrides: kept };
        let copy = channel.clone();
        let ghost c = channel@;
        self.channels.push(channel);
        self.next_channel = self.next_channel + 1;
        proof {
            assert(self@.channels =~= s.channels.push(c));
            let given = ChannelView { overrides: overrides@, ..c };
            assert(s.add_channel(c) == s.put_channel(given));
            lemma_put_channel_ok(s, given);
        }
        copy
    }

    /// Replaces the overrides of the channel at index `i`. An override for a
    /// role that does not exist is dropped.
    pub fn insert_channel_overrides(&mut self, i: usize, overrides: &HashMap<usize, (u8, u8)>)
        requires
            old(self).wf(),
            i < old(self)@.channels.len(),
        ensures
            final(self).wf(),
            final(self)@ == old(self)@.set_channel(
                i as int,
                ChannelView {
                    overrides: known_overrides(old(self)@.roles, overrides@),
                    ..old(self)@.channels[i as int]
                },
            ),
    {
        let ghost s = self@;
        let kept = self.known(overrides);
        let ghost c = ChannelView { overrides: kept@, ..s.channels[i as int] };
        self.channels[i].overrides = kept;
        proof {
            assert(self@.channels =~= s.channels.update(i as int, c));
            lemma_set_channel_ok(s, i as int, c);
        }
    }

    /// Renames the channel at index `i`.
    pub fn rename_channel(&mut self, i: usize, name: String)
        requires
            old(self).wf(),
            i < old(self)@.channels.len(),
        ensures
            final(self).wf(),
            final(self)@ == old(self)@.set_channel(
                i as int,
                ChannelView { name: name@, ..old(self)@.channels[i as int] },
            ),
    {
        let ghost s = self@;
        let ghost c = ChannelView { name: name@, ..s.channels[i as int] };
        self.channels[i].name = name;
        proof {
            assert(self@.channels =~= s.channels.update(i as int, c));
            lemma_set_channel_ok(s, i as int, c);
        }
    }

    /// Deletes the channel at index `i` with all its messages, and gives the
    /// channel back.
    pub fn delete_channel(&mut self, i: usize) -> (gone: Channel)
        requires
            old(self).wf(),
            i < old(self)@.channels.len(),
        ensures
            final(self).wf(),
            gone@ == old(self)@.channels[i as int],
            final(self)@ == old(self)@.delete_channel(i as int),
    {
        let ghost s = self@;
        let gone = self.channels.remove(i);
        assert(self@.channels =~= s.channels.remove(i as int));
        let ghost p = outside_test(gone.id);
        let mut left: Vec<Message> = Vec::new();
        let mut k: usize = 0;
        while k < self.messages.len()
            invariant
                k <= self.messages.len(),
                s.messages == message_views(self.messages@),
                p == outside_test(gone.id),
                message_views(left@) == keep(s.messages.take(k as int), p),
            decreases self.messages.len() - k,
        {
            assert(s.messages.take(k + 1).drop_last() =~= s.messages.take(k as int));
            if self.messages[k].channel != gone.id {
                let ghost shorter = message_views(left@);
                left.push(self.messages[k].clone());
                assert(message_views(left@) =~= shorter.push(s.messages[k as int]));
            }
            k += 1;
        }
        assert(s.messages.take(self.messages.len() as int) =~= s.messages);
        self.messages = left;
        proof {
            assert(self@ == s.delete_channel(i as int));
            lemma_delete_channel_ok(s, i as int);
        }
        gone
    }

    /// Adds a message under the next id and gives back a copy of it.
    pub fn create_message(
        &mut self,
        author: usize,
        channel: usize,
        text: Vec<u8>,
        timestamp: i64,
    ) -> (message: Message)
        requires
            old(self).wf(),
            old(self).roomy(),
        ensures
            final(self).wf(),
            message@ == (MessageView {
                author,
                channel,
                id: old(self)@.next_message,
                text: text@,
                timestamp,
                timestamp_edit: None,
            }),
            final(self)@ == old(self)@.add_message(message@),
    {
        let ghost s = self@;
        let message = Message {
            author,
            channel,
            id: self.next_message,
            text,
            timestamp,
            timestamp_edit: None,
        };
        let copy = message.clone();
        let ghost m = message@;
        self.messages.push(message);
        self.next_message = self.next_message + 1;
        proof {
            assert(self@.messages =~= s.messages.push(m));
            assert(s.add_message(m) == s.put_message(m));
            lemma_put_message_ok(s, m);
        }
        copy
    }

    /// Replaces the text of the message at index `i` and notes when.
    pub fn edit_message(&mut self, i: usize, text: Vec<u8>, time: i64)
        requires
            old(self).wf(),
            i < old(self)@.messages.len(),
        ensures
            final(self).wf(),
            final(self)@ == old(self)@.set_message(
                i as int,
                MessageView {
                    text: text@,
                    timestamp_edit: Some(time),
                    ..old(self)@.messages[i as int]
                },
            ),
    {
        let ghost s = self@;
        let ghost m = MessageView { text: text@, timestamp_edit: Some(time), ..s.messages[i as int] };
        self.messages[i].text = text;
        self.messages[i].timestamp_edit = Some(time);
        proof {
            assert(self@.messages =~= s.messages.update(i as int, m));
            lemma_set_message_ok(s, i as int, m);
        }
    }

    /// Deletes the message at index `i` and gives it back.
    pub fn delete_message(&mut self, i: usize) -> (gone: Message)
        requires
            old(self).wf(),
            i < old(self)@.messages.len(),
        ensures
            final(self).wf(),
            gone@ == old(self)@.messages[i as int],
            final(self)@ == old(self)@.delete_message(i as int),
    {
        let ghost s = self@;
        let gone = self.messages.remove(i);
        proof {
            assert(self@.messages =~= s.messages.remove(i as int));
            lemma_delete_message_ok(s, i as int);
        }
        gone
    }

    fn count_bounded(&self, channel: usize, bound: Bound) -> (n: usize)
        ensures
            n == bounded(self@.messages, channel, bound).len(),
    {
        let ghost ms = self@.messages;
        let ghost p = bound_test(channel, bound);
        let mut n: usize = 0;
        let mut k: usize = 0;
        while k < self.messages.len()
            invariant
                k <= self.messages.len(),
                ms == message_views(self.messages@),
                p == bound_test(channel, bound),
                n == keep(ms.take(k as int), p).len(),
                n <= k,
            decreases self.messages.len() - k,
        {
            assert(ms.take(k + 1).drop_last() =~= ms.take(k as int));
            if fits_bound(&self.messages[k], channel, bound) {
                n += 1;
            }
            k += 1;
        }
        assert(ms.take(self.messages.len() as int) =~= ms);
        n
    }

    fn slice_bounded(
        &self,
        channel: usize,
        bound: Bound,
        lo: usize,
        hi: usize,
    ) -> (out: Vec<Message>)
        requires
            lo <= hi <= bounded(self@.messages, channel, bound).len(),
        ensures
            message_views(out@) == bounded(self@.messages, channel, bound).subrange(
                lo as int,
                hi as int,
            ),
    {
        let ghost ms = self@.messages;
        let ghost p = bound_test(channel, bound);
        let mut out: Vec<Message> = Vec::new();
        let mut n: usize = 0;
        let mut k: usize = 0;
        assert(message_views(out@) =~= keep(ms.take(0), p).subrange(0, 0));
        while k < self.messages.len()
            invariant
                k <= self.messages.len(),
                ms == message_views(self.messages@),
                p == bound_test(channel, bound),
                lo <= hi,
                n == keep(ms.take(k as int), p).len(),
                n <= k,
                message_views(out@) == keep(ms.take(k as int), p).subrange(
                    least(lo as int, n as int),
                    least(hi as int, n as int),
                ),
            decreases self.messages.len() - k,
        {
            assert(ms.take(k + 1).drop_last() =~= ms.take(k as int));
            let ghost seen = keep(ms.take(k as int), p);
            let ghost shorter = message_views(out@);
            if fits_bound(&self.messages[k], channel, bound) {
                if lo <= n && n < hi {
                    out.push(self.messages[k].clone());
                    assert(message_views(out@) =~= shorter.push(ms[k as int]));
                }
                n += 1;
                assert(message_views(out@) =~= seen.push(ms[k as int]).subrange(
                    least(lo as int, n as int),
                    least(hi as int, n as int),
                ));
            }
            k += 1;
        }
        assert(ms.take(self.messages.len() as int) =~= ms);
        out
    }

    /// Gives a page of a channel's messages.
    pub fn list_messages(
        &self,
        channel: usize,
        after: Option<usize>,
        before: Option<usize>,
        limit: usize,
    ) -> (out: Vec<Message>)
        ensures
            message_views(out@) == self@.page(channel, after, before, limit),
    {
        let from: Option<usize> = match after {
            Some(id) => Some(id),
            None => before,
        };
        match from {
            Some(id) => {
                match self.find_message(id) {
                    Some(k) => {
                        let time: i64 = self.messages[k].timestamp;
                        let bound = if after.is_some() {
                            Bound::After(time)
                        } else {
                            Bound::Before(time)
                        };
                        let n = self.count_bounded(channel, bound);
                        let hi: usize = if limit < n {
                            limit
                        } else {
                            n
                        };
                        self.slice_bounded(channel, bound, 0, hi)
                    },
                    None => {
                        let out: Vec<Message> = Vec::new();
                        assert(message_views(out@) =~= Seq::<MessageView>::empty());
                        out
                    },
                }
            },
            None => {
                let n = self.count_bounded(channel, Bound::Latest);
                let take: usize = if limit < n {
                    limit
                } else {
                    n
                };
                self.slice_bounded(channel, Bound::Latest, n - take, n)
            },
        }
    }

    /// Puts back a role that was kept outside, if it can be put back, and
    /// says whether it was.
    pub fn restore_role(&mut self, role: Attribute) -> (taken: bool)
        requires
            old(self).wf(),
        ensures
            final(self).wf(),
            taken == old(self)@.takes_role(role@),
            final(self)@ == (if taken {
                old(self)@.put_role(role@)
            } else {
                old(self)@
            }),
    {
        let ghost s = self@;
        let ghost r = role@;
        if role.id == ROLE_HUMANS || role.id == ROLE_BOTS {
            let k = role.id - 1;
            if role.pos != 0 || role.name != self.roles[k].name {
                return false;
            }
            let mut role = role;
            role.unassignable = true;
            self.roles[k] = role;
            proof {
                assert(self@.roles =~= s.roles.update(
                    k as int,
                    AttributeView { unassignable: true, ..r },
                ));
                lemma_put_role_ok(s, r);
            }
            return true;
        }
        if role.id <= RESERVED_ROLES || role.id == usize::MAX || self.find_role(role.id).is_some()
            || self.roles.len() == usize::MAX || role.pos != self.roles.len() - 1 {
            return false;
        }
        if role.id >= self.next_role {
            self.next_role = role.id + 1;
        }
        self.roles.push(role);
        proof {
            assert(self@.roles =~= s.roles.push(r));
            lemma_put_role_ok(s, r);
        }
        true
    }

    fn roles_known(&self, ids: &Vec<usize>) -> (ok: bool)
        ensures
            ok == (forall|k: int|
                0 <= k < ids@.len() ==> (#[trigger] ids@[k]) > RESERVED_ROLES && has_role(
                    self@.roles,
                    ids@[k],
                )),
    {
        let mut i: usize = 0;
        while i < ids.len()
            invariant
                i <= ids.len(),
                forall|k: int|
                    0 <= k < i ==> (#[trigger] ids@[k]) > RESERVED_ROLES && has_role(
                        self@.roles,
                        ids@[k],
                    ),
            decreases ids.len() - i,
        {
            if ids[i] <= RESERVED_ROLES || self.find_role(ids[i]).is_none() {
                assert(!(ids@[i as int] > RESERVED_ROLES && has_role(self@.roles, ids@[i as int])));
                return false;
            }
            i += 1;
        }
        true
    }

    /// Puts back an account that was kept outside, if it can be put back,
    /// and says whether it was.
    pub fn restore_account(&mut self, account: Account) -> (taken: bool)
        requires
            old(self).wf(),
        ensures
            final(self).wf(),
            taken == old(self)@.takes_account(account@),
            final(self)@ == (if taken {
                old(self)@.put_account(account@)
            } else {
                old(self)@
            }),
    {
        let ghost s = self@;
        let ghost a = account@;
        if account.user.id < self.next_user || account.user.id == usize::MAX {
            return false;
        }
        if self.find_user_by_name(account.user.name.as_str()).is_some() {
            return false;
        }
        if !self.roles_known(&account.user.attributes) {
            assert(!s.takes_account(a)) by {
                if s.takes_account(a) {
                    assert forall|k: int| 0 <= k < account.user.attributes@.len() implies (
                    #[trigger] account.user.attributes@[k]) > RESERVED_ROLES && has_role(
                        s.roles,
                        account.user.attributes@[k],
                    ) by {
                        assert(a.user.attributes[k] > RESERVED_ROLES);
                    }
                }
            }
            return false;
        }
        self.next_user = account.user.id + 1;
        self.accounts.push(account);
        proof {
            assert(self@.accounts =~= s.accounts.push(a));
            lemma_put_account_ok(s, a);
        }
        true
    }

    /// Puts back a channel that was kept outside, if it can be put back,
    /// and says whether it was. An override for a role that does not exist
    /// is dropped.
    pub fn restore_channel(&mut self, channel: Channel) -> (taken: bool)
        requires
            old(self).wf(),
        ensures
            final(self).wf(),
            taken == old(self)@.takes_channel(channel@),
            final(self)@ == (if taken {
                old(self)@.put_channel(channel@)
            } else {
                old(self)@
            }),
    {
        let ghost s = self@;
        let ghost given = channel@;
        if channel.id < self.next_channel || channel.id == usize::MAX {
            return false;
        }
        let kept = self.known(&channel.overrides);
        let channel = Channel { id: channel.id, name: channel.name, overrides: kept };
        let ghost c = channel@;
        self.next_channel = channel.id + 1;
        self.channels.push(channel);
        proof {
            assert(self@.channels =~= s.channels.push(c));
            lemma_put_channel_ok(s, given);
        }
        true
    }

    /// Puts back a message that was kept outside, if it can be put back,
    /// and says whether it was.
    pub fn restore_message(&mut self, message: Message) -> (taken: bool)
        requires
            old(self).wf(),
        ensures
            final(self).wf(),
            taken == old(self)@.takes_message(message@),
            final(self)@ == (if taken {
                old(self)@.put_message(message@)
            } else {
                old(self)@
            }),
    {
        let ghost s = self@;
        let ghost m = message@;
        if message.id < self.next_message || message.id == usize::MAX {
            return false;
        }
        self.next_message = message.id + 1;
        self.messages.push(message);
        proof {
            assert(self@.messages =~= s.messages.push(m));
            lemma_put_message_ok(s, m);
        }
        true
    }

    /// Gives a copy of the user with an id.
    pub fn get_user(&self, id: usize) -> (out: Option<User>)
        ensures
            match out {
                Some(user) => self@.account_index(id) >= 0 && user@
                    == self@.accounts[self@.account_index(id)].user,
                None => self@.account_index(id) < 0,
            },
    {
        match self.find_user(id) {
            Some(i) => Some(self.accounts[i].user.clone()),
            None => None,
        }
    }

    /// Gives a copy of the role with an id.
    pub fn get_group(&self, id: usize) -> (out: Option<Attribute>)
        ensures
            match out {
                Some(role) => self@.role_index(id) >= 0 && role@ == self@.roles[self@.role_index(id)],
                None => self@.role_index(id) < 0,
            },
    {
        match self.find_role(id) {
            Some(i) => Some(self.roles[i].clone()),
            None => None,
        }
    }

    /// Gives a copy of the channel with an id.
    pub fn get_channel(&self, id: usize) -> (out: Option<Channel>)
        ensures
            match out {
                Some(channel) => self@.channel_index(id) >= 0 && channel@
                    == self@.channels[self@.channel_index(id)],
                None => self@.channel_index(id) < 0,
            },
    {
        match self.find_channel(id) {
            Some(i) => Some(self.channels[i].clone()),
            None => None,
        }
    }

    /// Gives a copy of the message with an id.
    pub fn get_message(&self, id: usize) -> (out: Option<Message>)
        ensures
            match out {
                Some(message) => self@.message_index(id) >= 0 && message@
                    == self@.messages[self@.message_index(id)],
                None => self@.message_index(id) < 0,
            },
    {
        match self.find_message(id) {
            Some(i) => Some(self.messages[i].clone()),
            None => None,
        }
    }

    /// The id that the next entry of each kind gets: role, account,
    /// channel, message.
    pub fn counters(&self) -> (out: (usize, usize, usize, usize))
        ensures
            out == (self@.next_role, self@.next_user, self@.next_channel, self@.next_message),
    {
        (self.next_role, self.next_user, self.next_channel, self.next_message)
    }

    /// Raises the id counters to values that were kept outside, so that no
    /// id of a deleted entry is handed out again, and says whether they
    /// were taken: a counter never falls.
    pub fn restore_counters(
        &mut self,
        role: usize,
        user: usize,
        channel: usize,
        message: usize,
    ) -> (taken: bool)
        requires
            old(self).wf(),
        ensures
            final(self).wf(),
            taken == old(self)@.takes_counters(role, user, channel, message),
            final(self)@ == (if taken {
                old(self)@.put_counters(role, user, channel, message)
            } else {
                old(self)@
            }),
    {
        let ghost s = self@;
        if role < self.next_role || user < self.next_user || channel < self.next_channel || message
            < self.next_message {
            return false;
        }
        self.next_role = role;
        self.next_user = user;
        self.next_channel = channel;
        self.next_message = message;
        proof {
            lemma_put_counters_ok(s, role, user, channel, message);
        }
        true
    }
}

} // verus!
