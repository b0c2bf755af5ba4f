//! The decisions of the server: what each request does to the state and
//! what is sent to whom.

use crate::config::Config;
use crate::consts::{
    ERR_ATTR_INVALID_POS, ERR_ATTR_LOCKED_NAME, ERR_LIMIT_REACHED, ERR_MISSING_FIELD,
    ERR_MISSING_PERMISSION, ERR_UNKNOWN_ATTRIBUTE, ERR_UNKNOWN_CHANNEL, ERR_UNKNOWN_MESSAGE,
    ERR_UNKNOWN_USER, LIMIT_MESSAGE_LIST, PERM_ASSIGN_ATTRIBUTES, PERM_BAN, PERM_MANAGE_ATTRIBUTES,
    PERM_MANAGE_CHANNELS, PERM_MANAGE_MESSAGES, PERM_READ, PERM_WRITE, RESERVED_ROLES,
};
use crate::packet::{
    AttributeCreate, AttributeCreateView, AttributeDelete, AttributeDeleteReceive,
    AttributeDeleteReceiveView, AttributeReceive, AttributeReceiveView, AttributeUpdate,
    AttributeUpdateView, ChannelCreate, ChannelCreateView, ChannelDelete, ChannelDeleteReceive,
    ChannelDeleteReceiveView, ChannelReceive, ChannelReceiveView, ChannelUpdate, ChannelUpdateView,
    MessageCreate, MessageCreateView, MessageDelete, MessageDeleteReceive, MessageList,
    MessageReceive, MessageReceiveView, MessageUpdate, MessageUpdateView, Packet, PacketView,
    Typing, TypingReceive, UserReceive, UserReceiveView, UserUpdate, UserUpdateView,
};
use crate::perm::{calculate_permissions, contains_id, effective_mask, has_perm, permitted};
use crate::roles::{apply_op, has_role, index_of, lemma_index_of, others, RoleOp};
use crate::state::{known_overrides, message_views, AccountView, StoreView};
use crate::store::Store;
use crate::types::{Attribute, AttributeView, ChannelView, MessageView, UserView};
use std::collections::HashMap;
use vstd::prelude::*;

verus! {

/// Who receives an event.
#[derive(Debug)]
pub enum Audience {
    /// Every session that is logged in.
    Everyone,
    /// The sessions whose users may read in a channel with these overrides.
    Readers(HashMap<usize, (u8, u8)>),
}

/// The view of `Audience`.
pub enum AudienceView {
    Everyone,
    Readers(Map<usize, (u8, u8)>),
}

impl View for Audience {
    type V = AudienceView;

    open spec fn view(&self) -> AudienceView {
        match *self {
            Audience::Everyone => AudienceView::Everyone,
            Audience::Readers(overrides) => AudienceView::Readers(overrides@),
        }
    }
}

/// An event and who receives it.
#[derive(Debug)]
pub struct Event {
    pub packet: Packet,
    pub audience: Audience,
}

/// The view of `Event`.
pub struct EventView {
    pub packet: PacketView,
    pub audience: AudienceView,
}

impl View for Event {
    type V = EventView;

    open spec fn view(&self) -> EventView {
        EventView { packet: self.packet@, audience: self.audience@ }
    }
}

/// The view of an optional event.
pub open spec fn opt_event(e: Option<Event>) -> Option<EventView> {
    match e {
        Some(e) => Some(e@),
        None => None,
    }
}

/// The views of a list of packets.
pub open spec fn packet_views(s: Seq<Packet>) -> Seq<PacketView> {
    Seq::new(s.len(), |i: int| s[i]@)
}

/// What the server does about one request, besides changing the state.
#[derive(Debug)]
pub struct Reaction {
    /// The packets for the requester alone that go out first.
    pub first: Vec<Packet>,
    /// The event that goes out to its audience after them.
    pub event: Option<Event>,
    /// The packets for the requester alone that go out last.
    pub last: Vec<Packet>,
    /// The requester's session ends.
    pub close: bool,
    /// Every session of this user ends.
    pub expel: Option<usize>,
    /// The requester's session is logged in as this user from now on.
    pub login: Option<usize>,
}

/// The view of `Reaction`.
pub struct ReactionView {
    pub first: Seq<PacketView>,
    pub event: Option<EventView>,
    pub last: Seq<PacketView>,
    pub close: bool,
    pub expel: Option<usize>,
    pub login: Option<usize>,
}

impl View for Reaction {
    type V = ReactionView;

    open spec fn view(&self) -> ReactionView {
        ReactionView {
            first: packet_views(self.first@),
            event: opt_event(self.event),
            last: packet_views(self.last@),
            close: self.close,
            expel: self.expel,
            login: self.login,
        }
    }
}

/// The state after a request, and the reaction to it.
pub struct Step {
    pub store: StoreView,
    pub out: ReactionView,
}

/// The reaction that sends nothing and changes nothing.
pub open spec fn silence() -> ReactionView {
    ReactionView {
        first: Seq::empty(),
        event: None,
        last: Seq::empty(),
        close: false,
        expel: None,
        login: None,
    }
}

/// The reaction that refuses a request with an error code.
pub open spec fn refusal(code: u8) -> ReactionView {
    ReactionView { first: seq![PacketView::Error(code)], ..silence() }
}

/// The reaction that ends the session without a reply: to a packet that is
/// out of place, and to the request to close.
pub open spec fn closing() -> ReactionView {
    ReactionView { close: true, ..silence() }
}

/// The reaction to a failure inside the server: the requester is told to
/// close, and the session ends.
pub open spec fn failure() -> ReactionView {
    ReactionView { first: seq![PacketView::Close], close: true, ..silence() }
}

/// The reaction that sends an event to its audience.
pub open spec fn announcement(packet: PacketView, audience: AudienceView) -> ReactionView {
    ReactionView { event: Some(EventView { packet, audience }), ..silence() }
}

/// A request that is refused leaves the state as it was.
pub open spec fn refused(s: StoreView, code: u8) -> Step {
    Step { store: s, out: refusal(code) }
}

/// A failure inside the server leaves the state as it was.
pub open spec fn failed(s: StoreView) -> Step {
    Step { store: s, out: failure() }
}

/// The length of a text on the wire: the number of bytes of its UTF-8
/// form.
pub open spec fn text_len(text: Seq<char>) -> nat {
    vstd::utf8::encode_utf8(text).len()
}

/// Whether a length lies outside a range.
pub open spec fn out_of_range(len: nat, min: usize, max: usize) -> bool {
    len < min || len > max
}

/// The effective mask of the account at index `a`, outside channels or in
/// a channel with the given overrides.
pub open spec fn mask_of(s: StoreView, a: int, overrides: Option<Map<usize, (u8, u8)>>) -> u8 {
    effective_mask(s.roles, s.accounts[a].user.bot, s.accounts[a].user.attributes, overrides)
}

/// Whether the account at index `a` may do what `perm` stands for.
pub open spec fn may(
    config: Config,
    s: StoreView,
    a: int,
    overrides: Option<Map<usize, (u8, u8)>>,
    perm: u8,
) -> bool {
    permitted(config, s.accounts[a].user.id, mask_of(s, a, overrides), perm)
}

pub(crate) fn silent() -> (out: Reaction)
    ensures
        out@ == silence(),
{
    let out = Reaction {
        first: Vec::new(),
        event: None,
        last: Vec::new(),
        close: false,
        expel: None,
        login: None,
    };
    assert(out@.first =~= Seq::<PacketView>::empty());
    assert(out@.last =~= Seq::<PacketView>::empty());
    out
}

pub(crate) fn refuse(code: u8) -> (out: Reaction)
    ensures
        out@ == refusal(code),
{
    let mut out = silent();
    out.first.push(Packet::Error(code));
    assert(out@.first =~= seq![PacketView::Error(code)]);
    out
}

pub(crate) fn fail() -> (out: Reaction)
    ensures
        out@ == failure(),
{
    let mut out = silent();
    out.first.push(Packet::Close);
    out.close = true;
    assert(out@.first =~= seq![PacketView::Close]);
    out
}

pub(crate) fn hang_up() -> (out: Reaction)
    ensures
        out@ == closing(),
{
    let mut out = silent();
    out.close = true;
    out
}

pub(crate) fn announce(packet: Packet, audience: Audience) -> (out: Reaction)
    ensures
        out@ == announcement(packet@, audience@),
{
    let mut out = silent();
    out.event = Some(Event { packet, audience });
    out
}

pub(crate) fn text_out_of_range(text: &str, min: usize, max: usize) -> (out: bool)
    ensures
        out == out_of_range(text_len(text@), min, max),
{
    let len = text.as_bytes().len();
    len < min || len > max
}

/// Computes the effective mask of the account at index `a`.
pub fn mask(store: &Store, a: usize, overrides: Option<&HashMap<usize, (u8, u8)>>) -> (m: u8)
    requires
        a < store@.accounts.len(),
    ensures
        m == mask_of(
            store@,
            a as int,
            match overrides {
                Some(o) => Some(o@),
                None => None,
            },
        ),
{
    let account = store.account(a);
    calculate_permissions(
        store.roles().as_slice(),
        account.user.bot,
        account.user.attributes.as_slice(),
        overrides,
    )
}

/// Tests whether the account at index `a` may do what `perm` stands for.
pub fn allowed(
    config: &Config,
    store: &Store,
    a: usize,
    overrides: Option<&HashMap<usize, (u8, u8)>>,
    perm: u8,
) -> (ok: bool)
    requires
        a < store@.accounts.len(),
    ensures
        ok == may(
            *config,
            store@,
            a as int,
            match overrides {
                Some(o) => Some(o@),
                None => None,
            },
            perm,
        ),
{
    let m = mask(store, a, overrides);
    has_perm(config, store.account(a).user.id, m, perm)
}

/// What a request to create a channel does, asked by the account at index
/// `a`.
///
/// A name outside the configured length, or more overrides than there may
/// be roles, is refused with `ERR_LIMIT_REACHED`; a requester without
/// `PERM_MANAGE_CHANNELS` with `ERR_MISSING_PERMISSION`. Else the channel
/// gets the next id, keeps the overrides that name existing roles, and is
/// announced to everyone.
pub open spec fn channel_create_spec(
    config: Config,
    s: StoreView,
    a: int,
    req: ChannelCreateView,
) -> Step {
    if out_of_range(text_len(req.name), config.limit_channel_name_min, config.limit_channel_name_max)
        || req.overrides.len() > config.limit_group_amount_max {
        refused(s, ERR_LIMIT_REACHED)
    } else if !may(config, s, a, None, PERM_MANAGE_CHANNELS) {
        refused(s, ERR_MISSING_PERMISSION)
    } else if !s.roomy() {
        failed(s)
    } else {
        let channel = ChannelView {
            id: s.next_channel,
            name: req.name,
            overrides: known_overrides(s.roles, req.overrides),
        };
        Step {
            store: s.add_channel(channel),
            out: announcement(
                PacketView::ChannelReceive(ChannelReceiveView { inner: channel }),
                AudienceView::Everyone,
            ),
        }
    }
}

/// Creates a channel for the account at index `a`.
pub fn channel_create(config: &Config, store: &mut Store, a: usize, req: ChannelCreate) -> (out:
    Reaction)
    requires
        old(store).wf(),
        a < old(store)@.accounts.len(),
    ensures
        final(store).wf(),
        (Step { store: final(store)@, out: out@ }) == channel_create_spec(
            *config,
            old(store)@,
            a as int,
            req@,
        ),
{
    broadcast use vstd::std_specs::hash::group_hash_axioms;

    if text_out_of_range(
        req.name.as_str(),
        config.limit_channel_name_min,
        config.limit_channel_name_max,
    ) || req.overrides.len() > config.limit_group_amount_max {
        return refuse(ERR_LIMIT_REACHED);
    }
    if !allowed(config, store, a, None, PERM_MANAGE_CHANNELS) {
        return refuse(ERR_MISSING_PERMISSION);
    }
    if !store.has_room() {
        return fail();
    }
    let channel = store.create_channel(req.name, &req.overrides);
    announce(Packet::ChannelReceive(ChannelReceive { inner: channel }), Audience::Everyone)
}

/// What a request to delete a channel does.
///
/// An unknown channel is refused with `ERR_UNKNOWN_CHANNEL`; a requester
/// without `PERM_MANAGE_CHANNELS` in that channel with
/// `ERR_MISSING_PERMISSION`. Else the channel and its messages are deleted
/// and the deletion is announced to everyone.
pub open spec fn channel_delete_spec(
    config: Config,
    s: StoreView,
    a: int,
    req: ChannelDelete,
) -> Step {
    let k = s.channel_index(req.id);
    if k < 0 {
        refused(s, ERR_UNKNOWN_CHANNEL)
    } else if !may(config, s, a, Some(s.channels[k].overrides), PERM_MANAGE_CHANNELS) {
        refused(s, ERR_MISSING_PERMISSION)
    } else {
        Step {
            store: s.delete_channel(k),
            out: announcement(
                PacketView::ChannelDeleteReceive(ChannelDeleteReceiveView { inner: s.channels[k] }),
                AudienceView::Everyone,
            ),
        }
    }
}

/// Deletes a channel for the account at index `a`.
pub fn channel_delete(config: &Config, store: &mut Store, a: usize, req: ChannelDelete) -> (out:
    Reaction)
    requires
        old(store).wf(),
        a < old(store)@.accounts.len(),
    ensures
        final(store).wf(),
        (Step { store: final(store)@, out: out@ }) == channel_delete_spec(
            *config,
            old(store)@,
            a as int,
            req,
        ),
{
    let k = match store.find_channel(req.id) {
        Some(k) => k,
        None => {
            return refuse(ERR_UNKNOWN_CHANNEL);
        },
    };
    if !allowed(config, store, a, Some(&store.channel(k).overrides), PERM_MANAGE_CHANNELS) {
        return refuse(ERR_MISSING_PERMISSION);
    }
    let gone = store.delete_channel(k);
    announce(Packet::ChannelDeleteReceive(ChannelDeleteReceive { inner: gone }), Audience::Everyone)
}

/// The channel that an update asks for: the old id, the new name, and the
/// old overrides or, unless they are to be kept, those of the new ones that
/// name existing roles.
pub open spec fn updated_channel(s: StoreView, k: int, req: ChannelUpdateView) -> ChannelView {
    ChannelView {
        id: s.channels[k].id,
        name: req.inner.name,
        overrides: if req.keep_overrides {
            s.channels[k].overrides
        } else {
            known_overrides(s.roles, req.inner.overrides)
        },
    }
}

/// What a request to update a channel does.
///
/// A name outside the configured length, or more overrides than there may
/// be roles, is refused with `ERR_LIMIT_REACHED`; an unknown channel with
/// `ERR_UNKNOWN_CHANNEL`; a requester without `PERM_MANAGE_CHANNELS` in the
/// channel as it was with `ERR_MISSING_PERMISSION`. Else the channel is
/// replaced and announced to everyone.
pub open spec fn channel_update_spec(
    config: Config,
    s: StoreView,
    a: int,
    req: ChannelUpdateView,
) -> Step {
    let k = s.channel_index(req.inner.id);
    if out_of_range(
        text_len(req.inner.name),
        config.limit_channel_name_min,
        config.limit_channel_name_max,
    ) || req.inner.overrides.len() > config.limit_group_amount_max {
        refused(s, ERR_LIMIT_REACHED)
    } else if k < 0 {
        refused(s, ERR_UNKNOWN_CHANNEL)
    } else if !may(config, s, a, Some(s.channels[k].overrides), PERM_MANAGE_CHANNELS) {
        refused(s, ERR_MISSING_PERMISSION)
    } else {
        Step {
            store: s.set_channel(k, updated_channel(s, k, req)),
            out: announcement(
                PacketView::ChannelReceive(ChannelReceiveView { inner: updated_channel(s, k, req) }),
                AudienceView::Everyone,
            ),
        }
    }
}

/// Updates a channel for the account at index `a`.
pub fn channel_update(config: &Config, store: &mut Store, a: usize, req: ChannelUpdate) -> (out:
    Reaction)
    requires
        old(store).wf(),
        a < old(store)@.accounts.len(),
    ensures
        final(store).wf(),
        (Step { store: final(store)@, out: out@ }) == channel_update_spec(
            *config,
            old(store)@,
            a as int,
            req@,
        ),
{
    broadcast use vstd::std_specs::hash::group_hash_axioms;

    let ghost s = store@;
    if text_out_of_range(
        req.inner.name.as_str(),
        config.limit_channel_name_min,
        config.limit_channel_name_max,
    ) || req.inner.overrides.len() > config.limit_group_amount_max {
        return refuse(ERR_LIMIT_REACHED);
    }
    let k = match store.find_channel(req.inner.id) {
        Some(k) => k,
        None => {
            return refuse(ERR_UNKNOWN_CHANNEL);
        },
    };
    if !allowed(config, store, a, Some(&store.channel(k).overrides), PERM_MANAGE_CHANNELS) {
        return refuse(ERR_MISSING_PERMISSION);
    }
    store.rename_channel(k, req.inner.name);
    let ghost named = store@;
    assert(named.channels.len() == s.channels.len());
    if !req.keep_overrides {
        store.insert_channel_overrides(k, &req.inner.overrides);
        assert(store@.channels =~= s.channels.update(k as int, updated_channel(s, k as int, req@)));
    } else {
        assert(store@.channels =~= s.channels.update(k as int, updated_channel(s, k as int, req@)));
    }
    assert(store@ == s.set_channel(k as int, updated_channel(s, k as int, req@)));
    let copy = store.channel(k).clone();
    announce(Packet::ChannelReceive(ChannelReceive { inner: copy }), Audience::Everyone)
}

/// What a request to create a role does.
///
/// A name outside the configured length is refused with
/// `ERR_LIMIT_REACHED`; a requester without `PERM_MANAGE_ATTRIBUTES` with
/// `ERR_MISSING_PERMISSION`; a role more than the configured number with
/// `ERR_LIMIT_REACHED`; position 0 or a position beyond the end plus one
/// with `ERR_ATTR_INVALID_POS`. Else the role gets the next id and enters
/// at its position, and is announced to everyone.
pub open spec fn attribute_create_spec(
    config: Config,
    s: StoreView,
    a: int,
    req: AttributeCreateView,
) -> Step {
    if out_of_range(text_len(req.name), config.limit_group_name_min, config.limit_group_name_max) {
        refused(s, ERR_LIMIT_REACHED)
    } else if !may(config, s, a, None, PERM_MANAGE_ATTRIBUTES) {
        refused(s, ERR_MISSING_PERMISSION)
    } else if s.roles.len() + 1 > config.limit_group_amount_max {
        refused(s, ERR_LIMIT_REACHED)
    } else if req.pos == 0 || req.pos > others(s.roles) + 1 {
        refused(s, ERR_ATTR_INVALID_POS)
    } else if !s.roomy() {
        failed(s)
    } else {
        let role = created_role(s, req);
        Step {
            store: s.create_role(role),
            out: announcement(
                PacketView::AttributeReceive(AttributeReceiveView { inner: role, new: true }),
                AudienceView::Everyone,
            ),
        }
    }
}

/// Creates a role for the account at index `a`.
pub fn attribute_create(config: &Config, store: &mut Store, a: usize, req: AttributeCreate) -> (out:
    Reaction)
    requires
        old(store).wf(),
        a < old(store)@.accounts.len(),
    ensures
        final(store).wf(),
        (Step { store: final(store)@, out: out@ }) == attribute_create_spec(
            *config,
            old(store)@,
            a as int,
            req@,
        ),
{
    if text_out_of_range(
        req.name.as_str(),
        config.limit_group_name_min,
        config.limit_group_name_max,
    ) {
        return refuse(ERR_LIMIT_REACHED);
    }
    if !allowed(config, store, a, None, PERM_MANAGE_ATTRIBUTES) {
        return refuse(ERR_MISSING_PERMISSION);
    }
    let count = store.roles().len();
    if count >= config.limit_group_amount_max {
        return refuse(ERR_LIMIT_REACHED);
    }
    if req.pos == 0 || req.pos > count - 1 {
        return refuse(ERR_ATTR_INVALID_POS);
    }
    if !store.has_room() {
        return fail();
    }
    let role = Attribute {
        allow: req.allow,
        deny: req.deny,
        id: store.next_role_id(),
        name: req.name,
        pos: req.pos,
        unassignable: req.unassignable,
    };
    let copy = role.clone();
    store.create_role(role);
    announce(Packet::AttributeReceive(AttributeReceive { inner: copy, new: true }), Audience::Everyone)
}

/// What a request to delete a role does.
///
/// A requester without `PERM_MANAGE_ATTRIBUTES` is refused with
/// `ERR_MISSING_PERMISSION`; an unknown role with `ERR_UNKNOWN_ATTRIBUTE`;
/// a system role with `ERR_ATTR_INVALID_POS`. Else the role is deleted and
/// the deletion is announced to everyone.
pub open spec fn attribute_delete_spec(
    config: Config,
    s: StoreView,
    a: int,
    req: AttributeDelete,
) -> Step {
    let k = s.role_index(req.id);
    if !may(config, s, a, None, PERM_MANAGE_ATTRIBUTES) {
        refused(s, ERR_MISSING_PERMISSION)
    } else if k < 0 {
        refused(s, ERR_UNKNOWN_ATTRIBUTE)
    } else if s.roles[k].pos == 0 {
        refused(s, ERR_ATTR_INVALID_POS)
    } else {
        Step {
            store: s.delete_role(k),
            out: announcement(
                PacketView::AttributeDeleteReceive(AttributeDeleteReceiveView { inner: s.roles[k] }),
                AudienceView::Everyone,
            ),
        }
    }
}

/// Deletes a role for the account at index `a`.
pub fn attribute_delete(config: &Config, store: &mut Store, a: usize, req: AttributeDelete) -> (out:
    Reaction)
    requires
        old(store).wf(),
        a < old(store)@.accounts.len(),
    ensures
        final(store).wf(),
        (Step { store: final(store)@, out: out@ }) == attribute_delete_spec(
            *config,
            old(store)@,
            a as int,
            req,
        ),
{
    if !allowed(config, store, a, None, PERM_MANAGE_ATTRIBUTES) {
        return refuse(ERR_MISSING_PERMISSION);
    }
    let k = match store.find_role(req.id) {
        Some(k) => k,
        None => {
            return refuse(ERR_UNKNOWN_ATTRIBUTE);
        },
    };
    if store.role(k).pos == 0 {
        return refuse(ERR_ATTR_INVALID_POS);
    }
    assert(k >= 2) by {
        assert(store@.roles[0].pos == 0);
        assert(store@.roles[1].pos == 0);
    }
    let gone = store.delete_role(k);
    announce(
        Packet::AttributeDeleteReceive(AttributeDeleteReceive { inner: gone }),
        Audience::Everyone,
    )
}

/// The role that an update stores: what the request holds, but a system
/// role stays unassignable.
pub open spec fn updated_role(s: StoreView, k: int, inner: AttributeView) -> AttributeView {
    if s.roles[k].pos == 0 {
        AttributeView { unassignable: true, ..inner }
    } else {
        inner
    }
}

/// What a request to update a role does.
///
/// A name outside the configured length is refused with
/// `ERR_LIMIT_REACHED`; a requester without `PERM_MANAGE_ATTRIBUTES` with
/// `ERR_MISSING_PERMISSION`; an unknown role with `ERR_UNKNOWN_ATTRIBUTE`;
/// a position beyond the end, position 0 for a role that is not a system
/// role, or another position than 0 for a system role, with
/// `ERR_ATTR_INVALID_POS`; another name for a system role with
/// `ERR_ATTR_LOCKED_NAME`. Else the role is replaced, moved to its new
/// position, and announced to everyone.
pub open spec fn attribute_update_spec(
    config: Config,
    s: StoreView,
    a: int,
    req: AttributeUpdateView,
) -> Step {
    let k = s.role_index(req.inner.id);
    if out_of_range(text_len(req.inner.name), config.limit_group_name_min, config.limit_group_name_max) {
        refused(s, ERR_LIMIT_REACHED)
    } else if !may(config, s, a, None, PERM_MANAGE_ATTRIBUTES) {
        refused(s, ERR_MISSING_PERMISSION)
    } else if k < 0 {
        refused(s, ERR_UNKNOWN_ATTRIBUTE)
    } else if (req.inner.pos == 0) != (s.roles[k].pos == 0) || req.inner.pos > others(s.roles) {
        refused(s, ERR_ATTR_INVALID_POS)
    } else if req.inner.pos == 0 && req.inner.name != s.roles[k].name {
        refused(s, ERR_ATTR_LOCKED_NAME)
    } else {
        Step {
            store: s.update_role(k, updated_role(s, k, req.inner)),
            out: announcement(
                PacketView::AttributeReceive(
                    AttributeReceiveView { inner: updated_role(s, k, req.inner), new: true },
                ),
                AudienceView::Everyone,
            ),
        }
    }
}

/// Updates a role for the account at index `a`.
pub fn attribute_update(config: &Config, store: &mut Store, a: usize, req: AttributeUpdate) -> (out:
    Reaction)
    requires
        old(store).wf(),
        a < old(store)@.accounts.len(),
    ensures
        final(store).wf(),
        (Step { store: final(store)@, out: out@ }) == attribute_update_spec(
            *config,
            old(store)@,
            a as int,
            req@,
        ),
{
    let ghost s = store@;
    if text_out_of_range(
        req.inner.name.as_str(),
        config.limit_group_name_min,
        config.limit_group_name_max,
    ) {
        return refuse(ERR_LIMIT_REACHED);
    }
    if !allowed(config, store, a, None, PERM_MANAGE_ATTRIBUTES) {
        return refuse(ERR_MISSING_PERMISSION);
    }
    let k = match store.find_role(req.inner.id) {
        Some(k) => k,
        None => {
            return refuse(ERR_UNKNOWN_ATTRIBUTE);
        },
    };
    let count = store.roles().len();
    let system = store.role(k).pos == 0;
    proof {
        assert(s.roles[0].pos == 0);
        assert(s.roles[1].pos == 0);
        assert(system <==> k < 2) by {
            if k >= 2 {
                assert(s.roles[k as int].pos == k - 1);
            }
        }
    }
    if (req.inner.pos == 0) != system || req.inner.pos > count - 2 {
        return refuse(ERR_ATTR_INVALID_POS);
    }
    if req.inner.pos == 0 && req.inner.name != store.role(k).name {
        return refuse(ERR_ATTR_LOCKED_NAME);
    }
    let mut role = req.inner;
    if system {
        role.unassignable = true;
    }
    let copy = role.clone();
    proof {
        lemma_index_of(s.roles, role.id);
    }
    store.update_role(k, role);
    announce(Packet::AttributeReceive(AttributeReceive { inner: copy, new: true }), Audience::Everyone)
}

/// What a request to post a message does, at the time `time`.
///
/// A text outside the configured length is refused with
/// `ERR_LIMIT_REACHED`; an unknown channel with `ERR_UNKNOWN_CHANNEL`; a
/// requester without `PERM_WRITE` in the channel with
/// `ERR_MISSING_PERMISSION`. Else the message gets the next id and is
/// announced to the readers of the channel.
pub open spec fn message_create_spec(
    config: Config,
    s: StoreView,
    a: int,
    req: MessageCreateView,
    time: i64,
) -> Step {
    let c = s.channel_index(req.channel);
    if out_of_range(req.text.len(), config.limit_message_min, config.limit_message_max) {
        refused(s, ERR_LIMIT_REACHED)
    } else if c < 0 {
        refused(s, ERR_UNKNOWN_CHANNEL)
    } else if !may(config, s, a, Some(s.channels[c].overrides), PERM_WRITE) {
        refused(s, ERR_MISSING_PERMISSION)
    } else if !s.roomy() {
        failed(s)
    } else {
        let message = MessageView {
            author: s.accounts[a].user.id,
            channel: req.channel,
            id: s.next_message,
            text: req.text,
            timestamp: time,
            timestamp_edit: None,
        };
        Step {
            store: s.add_message(message),
            out: announcement(
                PacketView::MessageReceive(MessageReceiveView { inner: message, new: true }),
                AudienceView::Readers(s.channels[c].overrides),
            ),
        }
    }
}

pub(crate) fn length_out_of_range(len: usize, min: usize, max: usize) -> (out: bool)
    ensures
        out == out_of_range(len as nat, min, max),
{
    len < min || len > max
}

/// Posts a message for the account at index `a`.
pub fn message_create(
    config: &Config,
    store: &mut Store,
    a: usize,
    req: MessageCreate,
    time: i64,
) -> (out: Reaction)
    requires
        old(store).wf(),
        a < old(store)@.accounts.len(),
    ensures
        final(store).wf(),
        (Step { store: final(store)@, out: out@ }) == message_create_spec(
            *config,
            old(store)@,
            a as int,
            req@,
            time,
        ),
{
    if length_out_of_range(req.text.len(), config.limit_message_min, config.limit_message_max) {
        return refuse(ERR_LIMIT_REACHED);
    }
    let c = match store.find_channel(req.channel) {
        Some(c) => c,
        None => {
            return refuse(ERR_UNKNOWN_CHANNEL);
        },
    };
    if !allowed(config, store, a, Some(&store.channel(c).overrides), PERM_WRITE) {
        return refuse(ERR_MISSING_PERMISSION);
    }
    if !store.has_room() {
        return fail();
    }
    let readers = store.channel(c).overrides.clone();
    let author = store.account(a).user.id;
    let message = store.create_message(author, req.channel, req.text, time);
    announce(
        Packet::MessageReceive(MessageReceive { inner: message, new: true }),
        Audience::Readers(readers),
    )
}

/// What a request to delete a message does.
///
/// An unknown message is refused with `ERR_UNKNOWN_MESSAGE`; an unknown
/// channel, or another channel than the message's, with
/// `ERR_UNKNOWN_CHANNEL`; a requester who is not the author and is without
/// `PERM_MANAGE_MESSAGES` in the channel with `ERR_MISSING_PERMISSION`.
/// Else the message is deleted and the deletion is announced to the readers
/// of the channel.
pub open spec fn message_delete_spec(
    config: Config,
    s: StoreView,
    a: int,
    req: MessageDelete,
) -> Step {
    let m = s.message_index(req.id);
    let c = s.channel_index(req.channel);
    if m < 0 {
        refused(s, ERR_UNKNOWN_MESSAGE)
    } else if c < 0 || s.messages[m].channel != req.channel {
        refused(s, ERR_UNKNOWN_CHANNEL)
    } else if s.messages[m].author != s.accounts[a].user.id && !may(
        config,
        s,
        a,
        Some(s.channels[c].overrides),
        PERM_MANAGE_MESSAGES,
    ) {
        refused(s, ERR_MISSING_PERMISSION)
    } else {
        Step {
            store: s.delete_message(m),
            out: announcement(
                PacketView::MessageDeleteReceive(MessageDeleteReceive { id: req.id }),
                AudienceView::Readers(s.channels[c].overrides),
            ),
        }
    }
}

/// Deletes a message for the account at index `a`.
pub fn message_delete(config: &Config, store: &mut Store, a: usize, req: MessageDelete) -> (out:
    Reaction)
    requires
        old(store).wf(),
        a < old(store)@.accounts.len(),
    ensures
        final(store).wf(),
        (Step { store: final(store)@, out: out@ }) == message_delete_spec(
            *config,
            old(store)@,
            a as int,
            req,
        ),
{
    let m = match store.find_message(req.id) {
        Some(m) => m,
        None => {
            return refuse(ERR_UNKNOWN_MESSAGE);
        },
    };
    let c = match store.find_channel(req.channel) {
        Some(c) => c,
        None => {
            return refuse(ERR_UNKNOWN_CHANNEL);
        },
    };
    if store.message(m).channel != req.channel {
        return refuse(ERR_UNKNOWN_CHANNEL);
    }
    if store.message(m).author != store.account(a).user.id && !allowed(
        config,
        store,
        a,
        Some(&store.channel(c).overrides),
        PERM_MANAGE_MESSAGES,
    ) {
        return refuse(ERR_MISSING_PERMISSION);
    }
    let readers = store.channel(c).overrides.clone();
    store.delete_message(m);
    announce(
        Packet::MessageDeleteReceive(MessageDeleteReceive { id: req.id }),
        Audience::Readers(readers),
    )
}

/// The message that an edit at the time `time` leaves.
pub open spec fn edited_message(old_message: MessageView, text: Seq<u8>, time: i64) -> MessageView {
    MessageView { text, timestamp_edit: Some(time), ..old_message }
}

/// What a request to edit a message does, at the time `time`.
///
/// A text outside the configured length is refused with
/// `ERR_LIMIT_REACHED`; an unknown message with `ERR_UNKNOWN_MESSAGE`;
/// another channel than the message's, or an unknown one, with
/// `ERR_UNKNOWN_CHANNEL`; a requester who is not the author with
/// `ERR_MISSING_PERMISSION`. Else the text is replaced, the time of the edit
/// noted, and the message announced to the readers of the channel.
pub open spec fn message_update_spec(
    config: Config,
    s: StoreView,
    a: int,
    req: MessageUpdateView,
    time: i64,
) -> Step {
    let m = s.message_index(req.id);
    let c = s.channel_index(req.channel);
    if out_of_range(req.text.len(), config.limit_message_min, config.limit_message_max) {
        refused(s, ERR_LIMIT_REACHED)
    } else if m < 0 {
        refused(s, ERR_UNKNOWN_MESSAGE)
    } else if s.messages[m].channel != req.channel {
        refused(s, ERR_UNKNOWN_CHANNEL)
    } else if s.messages[m].author != s.accounts[a].user.id {
        refused(s, ERR_MISSING_PERMISSION)
    } else if c < 0 {
        refused(s, ERR_UNKNOWN_CHANNEL)
    } else {
        Step {
            store: s.set_message(m, edited_message(s.messages[m], req.text, time)),
            out: announcement(
                PacketView::MessageReceive(
                    MessageReceiveView {
                        inner: edited_message(s.messages[m], req.text, time),
                        new: true,
                    },
                ),
                AudienceView::Readers(s.channels[c].overrides),
            ),
        }
    }
}

/// Edits a message for the account at index `a`.
pub fn message_update(
    config: &Config,
    store: &mut Store,
    a: usize,
    req: MessageUpdate,
    time: i64,
) -> (out: Reaction)
    requires
        old(store).wf(),
        a < old(store)@.accounts.len(),
    ensures
        final(store).wf(),
        (Step { store: final(store)@, out: out@ }) == message_update_spec(
            *config,
            old(store)@,
            a as int,
            req@,
            time,
        ),
{
    if length_out_of_range(req.text.len(), config.limit_message_min, config.limit_message_max) {
        return refuse(ERR_LIMIT_REACHED);
    }
    let m = match store.find_message(req.id) {
        Some(m) => m,
        None => {
            return refuse(ERR_UNKNOWN_MESSAGE);
        },
    };
    if store.message(m).channel != req.channel {
        return refuse(ERR_UNKNOWN_CHANNEL);
    }
    if store.message(m).author != store.account(a).user.id {
        return refuse(ERR_MISSING_PERMISSION);
    }
    let c = match store.find_channel(req.channel) {
        Some(c) => c,
        None => {
            return refuse(ERR_UNKNOWN_CHANNEL);
        },
    };
    let readers = store.channel(c).overrides.clone();
    store.edit_message(m, req.text, time);
    let copy = store.message(m).clone();
    announce(
        Packet::MessageReceive(MessageReceive { inner: copy, new: true }),
        Audience::Readers(readers),
    )
}

/// A page of messages as the packets that carry it.
pub open spec fn page_packets(page: Seq<MessageView>) -> Seq<PacketView> {
    Seq::new(
        page.len(),
        |i: int| PacketView::MessageReceive(MessageReceiveView { inner: page[i], new: false }),
    )
}

/// What a request for a page of messages does.
///
/// An unknown channel is refused with `ERR_UNKNOWN_CHANNEL`; a page of more
/// than 64 messages with `ERR_LIMIT_REACHED`; a requester without
/// `PERM_READ` in the channel with `ERR_MISSING_PERMISSION`. Else the
/// requester alone gets the page, one packet for each message.
pub open spec fn message_list_spec(config: Config, s: StoreView, a: int, req: MessageList) -> Step {
    let c = s.channel_index(req.channel);
    if c < 0 {
        refused(s, ERR_UNKNOWN_CHANNEL)
    } else if req.limit > LIMIT_MESSAGE_LIST {
        refused(s, ERR_LIMIT_REACHED)
    } else if !may(config, s, a, Some(s.channels[c].overrides), PERM_READ) {
        refused(s, ERR_MISSING_PERMISSION)
    } else {
        Step {
            store: s,
            out: ReactionView {
                first: page_packets(s.page(req.channel, req.after, req.before, req.limit)),
                ..silence()
            },
        }
    }
}

/// Gives a page of messages to the account at index `a`.
pub fn message_list(config: &Config, store: &Store, a: usize, req: MessageList) -> (out: Reaction)
    requires
        store.wf(),
        a < store@.accounts.len(),
    ensures
        (Step { store: store@, out: out@ }) == message_list_spec(*config, store@, a as int, req),
{
    let c = match store.find_channel(req.channel) {
        Some(c) => c,
        None => {
            return refuse(ERR_UNKNOWN_CHANNEL);
        },
    };
    if req.limit > LIMIT_MESSAGE_LIST {
        return refuse(ERR_LIMIT_REACHED);
    }
    if !allowed(config, store, a, Some(&store.channel(c).overrides), PERM_READ) {
        return refuse(ERR_MISSING_PERMISSION);
    }
    let page = store.list_messages(req.channel, req.after, req.before, req.limit);
    let ghost all = message_views(page@);
    let mut packets: Vec<Packet> = Vec::new();
    let mut i: usize = 0;
    while i < page.len()
        invariant
            i <= page.len(),
            all == message_views(page@),
            packets@.len() == i,
            forall|j: int|
                0 <= j < i ==> (#[trigger] packets@[j])@ == PacketView::MessageReceive(
                    MessageReceiveView { inner: all[j], new: false },
                ),
        decreases page.len() - i,
    {
        packets.push(Packet::MessageReceive(MessageReceive { inner: page[i].clone(), new: false }));
        i += 1;
    }
    let mut out = silent();
    out.first = packets;
    assert(out@.first =~= page_packets(all));
    out
}

/// What the notice that somebody is typing does.
///
/// An unknown channel is refused with `ERR_UNKNOWN_CHANNEL`; a requester
/// without `PERM_WRITE` in the channel with `ERR_MISSING_PERMISSION`. Else
/// the notice is announced to the readers of the channel.
pub open spec fn typing_spec(config: Config, s: StoreView, a: int, req: Typing) -> Step {
    let c = s.channel_index(req.channel);
    if c < 0 {
        refused(s, ERR_UNKNOWN_CHANNEL)
    } else if !may(config, s, a, Some(s.channels[c].overrides), PERM_WRITE) {
        refused(s, ERR_MISSING_PERMISSION)
    } else {
        Step {
            store: s,
            out: announcement(
                PacketView::TypingReceive(
                    TypingReceive { author: s.accounts[a].user.id, channel: req.channel },
                ),
                AudienceView::Readers(s.channels[c].overrides),
            ),
        }
    }
}

/// Passes on the notice that the account at index `a` is typing.
pub fn typing(config: &Config, store: &Store, a: usize, req: Typing) -> (out: Reaction)
    requires
        store.wf(),
        a < store@.accounts.len(),
    ensures
        (Step { store: store@, out: out@ }) == typing_spec(*config, store@, a as int, req),
{
    let c = match store.find_channel(req.channel) {
        Some(c) => c,
        None => {
            return refuse(ERR_UNKNOWN_CHANNEL);
        },
    };
    if !allowed(config, store, a, Some(&store.channel(c).overrides), PERM_WRITE) {
        return refuse(ERR_MISSING_PERMISSION);
    }
    let readers = store.channel(c).overrides.clone();
    announce(
        Packet::TypingReceive(
            TypingReceive { author: store.account(a).user.id, channel: req.channel },
        ),
        Audience::Readers(readers),
    )
}

/// Whether a new list of roles gives or takes a role.
pub open spec fn differs(list: Seq<usize>, old_list: Seq<usize>, id: usize) -> bool {
    list.contains(id) != old_list.contains(id)
}

/// The highest position among the roles that a list names; 0 when it names
/// none.
pub open spec fn top_pos(roles: Seq<AttributeView>, held: Seq<usize>) -> nat
    decreases held.len(),
{
    if held.len() == 0 {
        0
    } else {
        let rest = top_pos(roles, held.drop_last());
        let k = index_of(roles, held.last());
        if k >= 0 && roles[k].pos > rest {
            roles[k].pos as nat
        } else {
            rest
        }
    }
}

/// Whether somebody whose highest role stands at `top` may give or take a
/// role: it exists, may be assigned, is no system role and stands below
/// `top`.
pub open spec fn assignable(roles: Seq<AttributeView>, id: usize, top: nat) -> bool {
    let k = index_of(roles, id);
    k >= 0 && !roles[k].unassignable && roles[k].pos != 0 && roles[k].pos < top
}

/// Whether somebody who manages roles may give or take a role: it exists
/// and is no system role.
pub open spec fn manageable(roles: Seq<AttributeView>, id: usize) -> bool {
    id > RESERVED_ROLES && has_role(roles, id)
}

/// Whether one role may be given or taken.
pub open spec fn change_ok(manager: bool, roles: Seq<AttributeView>, top: nat, id: usize) -> bool {
    if manager {
        manageable(roles, id)
    } else {
        assignable(roles, id, top)
    }
}

/// Whether a user may replace the roles `old_list` of a user by `list`.
///
/// Somebody who manages roles may give and take every role that exists and
/// is no system role. Anybody else must change something, and may give and
/// take only assignable roles below the highest of the roles in `held`,
/// which are the requester's own.
pub open spec fn assignment_ok(
    manager: bool,
    roles: Seq<AttributeView>,
    held: Seq<usize>,
    list: Seq<usize>,
    old_list: Seq<usize>,
) -> bool {
    &&& manager || exists|id: usize| #[trigger] differs(list, old_list, id)
    &&& forall|id: usize| #[trigger]
        differs(list, old_list, id) ==> change_ok(manager, roles, top_pos(roles, held), id)
}

fn top_position(store: &Store, held: &[usize]) -> (top: usize)
    ensures
        top == top_pos(store@.roles, held@),
{
    let mut top: usize = 0;
    let mut i: usize = 0;
    while i < held.len()
        invariant
            i <= held.len(),
            top == top_pos(store@.roles, held@.take(i as int)),
        decreases held.len() - i,
    {
        assert(held@.take(i + 1).drop_last() =~= held@.take(i as int));
        match store.find_role(held[i]) {
            Some(k) => {
                let pos = store.role(k).pos;
                if pos > top {
                    top = pos;
                }
            },
            None => {},
        }
        i += 1;
    }
    assert(held@.take(held.len() as int) =~= held@);
    top
}

fn change_allowed(store: &Store, manager: bool, top: usize, id: usize) -> (ok: bool)
    ensures
        ok == change_ok(manager, store@.roles, top as nat, id),
{
    match store.find_role(id) {
        Some(k) => {
            if manager {
                id > RESERVED_ROLES
            } else {
                let role = store.role(k);
                !role.unassignable && role.pos != 0 && role.pos < top
            }
        },
        None => false,
    }
}

fn assignment_allowed(
    store: &Store,
    manager: bool,
    held: &[usize],
    list: &[usize],
    old_list: &[usize],
) -> (ok: bool)
    ensures
        ok == assignment_ok(manager, store@.roles, held@, list@, old_list@),
{
    let top = top_position(store, held);
    let ghost roles = store@.roles;
    let mut any = false;
    let mut i: usize = 0;
    while i < list.len()
        invariant
            i <= list.len(),
            roles == store@.roles,
            top == top_pos(roles, held@),
            any ==> exists|id: usize| #[trigger] differs(list@, old_list@, id),
            !any ==> forall|j: int| 0 <= j < i ==> old_list@.contains(#[trigger] list@[j]),
            forall|j: int|
                0 <= j < i && !old_list@.contains(#[trigger] list@[j]) ==> change_ok(
                    manager,
                    roles,
                    top as nat,
                    list@[j],
                ),
        decreases list.len() - i,
    {
        let id = list[i];
        if !contains_id(old_list, id) {
            assert(list@.contains(id)) by {
                assert(list@[i as int] == id);
            }
            assert(differs(list@, old_list@, id));
            any = true;
            if !change_allowed(store, manager, top, id) {
                return false;
            }
        }
        i += 1;
    }
    let mut k: usize = 0;
    while k < old_list.len()
        invariant
            k <= old_list.len(),
            roles == store@.roles,
            top == top_pos(roles, held@),
            any ==> exists|id: usize| #[trigger] differs(list@, old_list@, id),
            !any ==> forall|j: int| 0 <= j < list.len() ==> old_list@.contains(#[trigger] list@[j]),
            !any ==> forall|j: int| 0 <= j < k ==> list@.contains(#[trigger] old_list@[j]),
            forall|j: int|
                0 <= j < list.len() && !old_list@.contains(#[trigger] list@[j]) ==> change_ok(
                    manager,
                    roles,
                    top as nat,
                    list@[j],
                ),
            forall|j: int|
                0 <= j < k && !list@.contains(#[trigger] old_list@[j]) ==> change_ok(
                    manager,
                    roles,
                    top as nat,
                    old_list@[j],
                ),
        decreases old_list.len() - k,
    {
        let id = old_list[k];
        if !contains_id(list, id) {
            assert(old_list@.contains(id)) by {
                assert(old_list@[k as int] == id);
            }
            assert(differs(list@, old_list@, id));
            any = true;
            if !change_allowed(store, manager, top, id) {
                return false;
            }
        }
        k += 1;
    }
    proof {
        assert forall|id: usize| #[trigger] differs(list@, old_list@, id) implies change_ok(
            manager,
            roles,
            top as nat,
            id,
        ) by {
            if list@.contains(id) {
                let j = choose|j: int| 0 <= j < list@.len() && list@[j] == id;
                assert(!old_list@.contains(list@[j]));
            } else {
                let j = choose|j: int| 0 <= j < old_list@.len() && old_list@[j] == id;
                assert(!list@.contains(old_list@[j]));
            }
        }
        if !any {
            assert forall|id: usize| !(#[trigger] differs(list@, old_list@, id)) by {
                if list@.contains(id) {
                    let j = choose|j: int| 0 <= j < list@.len() && list@[j] == id;
                    assert(old_list@.contains(list@[j]));
                }
                if old_list@.contains(id) {
                    let j = choose|j: int| 0 <= j < old_list@.len() && old_list@[j] == id;
                    assert(list@.contains(old_list@[j]));
                }
            }
        }
    }
    manager || any
}

/// The account at index `t` as a ban or its lifting leaves it.
pub open spec fn banned_account(s: StoreView, t: int, ban: bool) -> AccountView {
    AccountView { user: UserView { ban, ..s.accounts[t].user }, ..s.accounts[t] }
}

/// The account at index `t` with other roles.
pub open spec fn reassigned_account(s: StoreView, t: int, list: Seq<usize>) -> AccountView {
    AccountView { user: UserView { attributes: list, ..s.accounts[t].user }, ..s.accounts[t] }
}

/// What a request to change a user does.
///
/// An unknown user is refused with `ERR_UNKNOWN_USER`. A ban, or its
/// lifting, of oneself or of the owner, or by a requester without
/// `PERM_BAN`, is refused with `ERR_MISSING_PERMISSION`; else it is noted
/// and announced to everyone, and a ban ends every session of the user.
/// Without a ban in the request, a new list of roles from a requester
/// without `PERM_ASSIGN_ATTRIBUTES`, or one that `assignment_ok` does not
/// pass, is refused with `ERR_MISSING_PERMISSION`; else the list replaces
/// the user's roles and the user is announced to everyone. A request that
/// holds neither is refused with `ERR_MISSING_FIELD`.
pub open spec fn user_update_spec(
    config: Config,
    s: StoreView,
    a: int,
    req: UserUpdateView,
) -> Step {
    let t = s.account_index(req.id);
    if t < 0 {
        refused(s, ERR_UNKNOWN_USER)
    } else {
        match req.ban {
            Some(ban) => {
                if req.id == s.accounts[a].user.id || req.id == config.owner_id || !may(
                    config,
                    s,
                    a,
                    None,
                    PERM_BAN,
                ) {
                    refused(s, ERR_MISSING_PERMISSION)
                } else {
                    Step {
                        store: s.set_account(t, banned_account(s, t, ban)),
                        out: ReactionView {
                            expel: if ban {
                                Some(req.id)
                            } else {
                                None
                            },
                            ..announcement(
                                PacketView::UserReceive(
                                    UserReceiveView { inner: banned_account(s, t, ban).user },
                                ),
                                AudienceView::Everyone,
                            )
                        },
                    }
                }
            },
            None => match req.attributes {
                Some(list) => {
                    if !may(config, s, a, None, PERM_ASSIGN_ATTRIBUTES) || !assignment_ok(
                        may(config, s, a, None, PERM_MANAGE_ATTRIBUTES),
                        s.roles,
                        s.accounts[a].user.attributes,
                        list,
                        s.accounts[t].user.attributes,
                    ) {
                        refused(s, ERR_MISSING_PERMISSION)
                    } else {
                        Step {
                            store: s.set_account(t, reassigned_account(s, t, list)),
                            out: announcement(
                                PacketView::UserReceive(
                                    UserReceiveView { inner: reassigned_account(s, t, list).user },
                                ),
                                AudienceView::Everyone,
                            ),
                        }
                    }
                },
                None => refused(s, ERR_MISSING_FIELD),
            },
        }
    }
}

/// Changes a user for the account at index `a`.
pub fn user_update(config: &Config, store: &mut Store, a: usize, req: UserUpdate) -> (out: Reaction)
    requires
        old(store).wf(),
        a < old(store)@.accounts.len(),
    ensures
        final(store).wf(),
        (Step { store: final(store)@, out: out@ }) == user_update_spec(
            *config,
            old(store)@,
            a as int,
            req@,
        ),
{
    let ghost s = store@;
    let t = match store.find_user(req.id) {
        Some(t) => t,
        None => {
            return refuse(ERR_UNKNOWN_USER);
        },
    };
    match req.ban {
        Some(ban) => {
            if req.id == store.account(a).user.id || req.id == config.owner_id || !allowed(
                config,
                store,
                a,
                None,
                PERM_BAN,
            ) {
                return refuse(ERR_MISSING_PERMISSION);
            }
            store.set_ban(t, ban);
            let user = store.account(t).user.clone();
            let mut out = announce(
                Packet::UserReceive(UserReceive { inner: user }),
                Audience::Everyone,
            );
            if ban {
                out.expel = Some(req.id);
            }
            out
        },
        None => match req.attributes {
            Some(list) => {
                if !allowed(config, store, a, None, PERM_ASSIGN_ATTRIBUTES) {
                    return refuse(ERR_MISSING_PERMISSION);
                }
                let manager = allowed(config, store, a, None, PERM_MANAGE_ATTRIBUTES);
                if !assignment_allowed(
                    store,
                    manager,
                    store.account(a).user.attributes.as_slice(),
                    list.as_slice(),
                    store.account(t).user.attributes.as_slice(),
                ) {
                    return refuse(ERR_MISSING_PERMISSION);
                }
                proof {
                    let old_list = s.accounts[t as int].user.attributes;
                    let top = top_pos(s.roles, s.accounts[a as int].user.attributes);
                    assert forall|k: int| 0 <= k < list@.len() implies (#[trigger] list@[k])
                        > RESERVED_ROLES && has_role(s.roles, list@[k]) by {
                        let id = list@[k];
                        if old_list.contains(id) {
                            let j = choose|j: int| 0 <= j < old_list.len() && old_list[j] == id;
                            assert(s.accounts[t as int].user.attributes[j] == id);
                        } else {
                            assert(list@.contains(id));
                            assert(differs(list@, old_list, id));
                            assert(change_ok(manager, s.roles, top, id));
                            if !manager {
                                lemma_index_of(s.roles, id);
                                let r = index_of(s.roles, id);
                                assert(s.roles[0].pos == 0);
                                assert(s.roles[1].pos == 0);
                                assert(r >= 2);
                                assert(s.roles[r].id > RESERVED_ROLES);
                            }
                        }
                    }
                }
                store.set_roles(t, list);
                let user = store.account(t).user.clone();
                announce(Packet::UserReceive(UserReceive { inner: user }), Audience::Everyone)
            },
            None => refuse(ERR_MISSING_FIELD),
        },
    }
}

/// Computes the effective mask of the user with the given id, outside
/// channels or in a channel with the given overrides. `None` says that
/// there is no such user.
pub fn calculate_permissions_by_user(
    store: &Store,
    id: usize,
    chan_overrides: Option<&HashMap<usize, (u8, u8)>>,
) -> (out: Option<u8>)
    ensures
        out == (if store@.account_index(id) >= 0 {
            Some(
                mask_of(
                    store@,
                    store@.account_index(id),
                    match chan_overrides {
                        Some(o) => Some(o@),
                        None => None,
                    },
                ),
            )
        } else {
            None
        }),
{
    match store.find_user(id) {
        Some(a) => Some(mask(store, a, chan_overrides)),
        None => None,
    }
}

/// The role that a request to create a role puts into the table.
pub open spec fn created_role(s: StoreView, req: AttributeCreateView) -> AttributeView {
    AttributeView {
        allow: req.allow,
        deny: req.deny,
        id: s.next_role,
        name: req.name,
        pos: req.pos,
        unassignable: req.unassignable,
    }
}

/// Whatever a request to create, update or delete a role does to the role
/// table, it leaves the table as it was or does what one change of the
/// table does; so the positions stay exactly 1..N through every such
/// request.
pub proof fn lemma_role_requests_are_table_changes(
    config: Config,
    s: StoreView,
    a: int,
    packet: PacketView,
)
    requires
        s.ok(),
    ensures
        packet matches PacketView::AttributeCreate(req) ==> ({
            let after = attribute_create_spec(config, s, a, req).store.roles;
            after == s.roles || after == apply_op(s.roles, RoleOp::Create(created_role(s, req)))
        }),
        packet matches PacketView::AttributeUpdate(req) ==> ({
            let after = attribute_update_spec(config, s, a, req).store.roles;
            after == s.roles || after == apply_op(
                s.roles,
                RoleOp::Update(updated_role(s, s.role_index(req.inner.id), req.inner)),
            )
        }),
        packet matches PacketView::AttributeDelete(req) ==> ({
            let after = attribute_delete_spec(config, s, a, req).store.roles;
            after == s.roles || after == apply_op(s.roles, RoleOp::Delete(req.id))
        }),
{
    assert(s.roles[0].pos == 0 && s.roles[1].pos == 0);
    match packet {
        PacketView::AttributeCreate(req) => {
            let role = created_role(s, req);
            lemma_index_of(s.roles, role.id);
            assert(s.roles[1].id < s.next_role);
            if has_role(s.roles, role.id) {
                assert(s.roles[index_of(s.roles, role.id)].id < s.next_role);
            }
        },
        PacketView::AttributeUpdate(req) => {
            let k = s.role_index(req.inner.id);
            lemma_index_of(s.roles, req.inner.id);
            if k >= 2 {
                assert(s.roles[k].pos == k - 1);
            }
        },
        PacketView::AttributeDelete(req) => {
            let k = s.role_index(req.id);
            lemma_index_of(s.roles, req.id);
            if k >= 2 {
                assert(s.roles[k].pos == k - 1);
            }
        },
        _ => {},
    }
}

} // verus!
