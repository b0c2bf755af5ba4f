//! The server as one value: configuration, state, live connections and
//! rate limits, and what one packet from one connection does to them.

use crate::auth::{
    login, login_spec, login_update, login_update_spec, login_verdict, update_verdict,
};
use crate::config::Config;
use crate::consts::PERM_READ;
use crate::limiter::{check_rate_limits, limiter_step, quota, window_len, UserSession};
use crate::outside::{as_nanos, bcrypt_verdict, elapsed, instant_now, unix_time};
use crate::packet::{Packet, PacketView};
use crate::perm::{has_perm, permitted};
use crate::registry::{conn_ids, user_test, Registry, RegistryView, Session};
use crate::roles::{lemma_op_ok, lemma_positions_dense, others, table_ok, RoleOp};
use crate::secrets::is_token;
use crate::seqs::keep;
use crate::server::{
    attribute_create, attribute_create_spec, attribute_delete, attribute_delete_spec,
    attribute_update, attribute_update_spec, calculate_permissions_by_user, channel_create,
    channel_create_spec, channel_delete, channel_delete_spec, channel_update, channel_update_spec,
    closing, created_role, fail, failure, hang_up, lemma_role_requests_are_table_changes, mask_of,
    message_create, message_create_spec, message_delete, message_delete_spec, message_list,
    message_list_spec, message_update, message_update_spec, packet_views, silence, silent, typing,
    typing_spec, updated_role, user_update, user_update_spec, Audience, AudienceView, Reaction,
    ReactionView, Step,
};
use crate::state::StoreView;
use crate::store::Store;
use std::collections::HashMap;
use vstd::prelude::*;

verus! {

/// The rate class of a request: `Some(true)` for the expensive class,
/// `Some(false)` for the cheap class, `None` for a packet that the limiter
/// does not count.
///
/// The typing notice is not counted. A change to one's own account is
/// expensive when it asks for a new token or a new password, and cheap
/// else. Every other request of a logged-in session is cheap.
pub open spec fn class_of(packet: PacketView) -> Option<bool> {
    match packet {
        PacketView::LoginUpdate(req) => Some(
            req.reset_token || (req.password_current is Some && req.password_new is Some),
        ),
        PacketView::ChannelCreate(_) => Some(false),
        PacketView::ChannelUpdate(_) => Some(false),
        PacketView::ChannelDelete(_) => Some(false),
        PacketView::AttributeCreate(_) => Some(false),
        PacketView::AttributeUpdate(_) => Some(false),
        PacketView::AttributeDelete(_) => Some(false),
        PacketView::MessageCreate(_) => Some(false),
        PacketView::MessageUpdate(_) => Some(false),
        PacketView::MessageDelete(_) => Some(false),
        PacketView::MessageList(_) => Some(false),
        PacketView::UserUpdate(_) => Some(false),
        _ => None,
    }
}

/// Whether a packet is a request that a logged-in session may make.
pub open spec fn is_request(packet: PacketView) -> bool {
    class_of(packet) is Some || packet is Typing
}

/// What a request of the account at index `a` does at the time `time`.
/// `verified`, `hash` and `token` are the outside work that a change to
/// one's own account needs.
pub open spec fn react(
    config: Config,
    s: StoreView,
    a: int,
    packet: PacketView,
    time: i64,
    verified: Option<bool>,
    hash: Option<Seq<char>>,
    token: Option<Seq<char>>,
) -> Step {
    match packet {
        PacketView::LoginUpdate(req) => login_update_spec(config, s, a, req, verified, hash, token),
        PacketView::ChannelCreate(req) => channel_create_spec(config, s, a, req),
        PacketView::ChannelUpdate(req) => channel_update_spec(config, s, a, req),
        PacketView::ChannelDelete(req) => channel_delete_spec(config, s, a, req),
        PacketView::AttributeCreate(req) => attribute_create_spec(config, s, a, req),
        PacketView::AttributeUpdate(req) => attribute_update_spec(config, s, a, req),
        PacketView::AttributeDelete(req) => attribute_delete_spec(config, s, a, req),
        PacketView::MessageCreate(req) => message_create_spec(config, s, a, req, time),
        PacketView::MessageUpdate(req) => message_update_spec(config, s, a, req, time),
        PacketView::MessageDelete(req) => message_delete_spec(config, s, a, req),
        PacketView::MessageList(req) => message_list_spec(config, s, a, req),
        PacketView::UserUpdate(req) => user_update_spec(config, s, a, req),
        PacketView::Typing(req) => typing_spec(config, s, a, req),
        _ => Step { store: s, out: closing() },
    }
}

/// The counters of a user after the limiter ran for a request of a class
/// at `now`.
pub open spec fn charged(
    session: UserSession,
    config: Config,
    expensive: bool,
    now: u128,
) -> UserSession {
    let v = limiter_step(
        session.window(expensive),
        window_len(expensive),
        quota(config, expensive),
        now,
    );
    if expensive {
        UserSession { packet_time_expensive: v.window.start, packets_expensive: v.window.count, ..session }
    } else {
        UserSession { packet_time_cheap: v.window.start, packets_cheap: v.window.count, ..session }
    }
}

/// What the limiter says to a request of a class at `now`: the seconds to
/// wait, when the request is rejected.
pub open spec fn wait_of(
    session: UserSession,
    config: Config,
    expensive: bool,
    now: u128,
) -> Option<u64> {
    limiter_step(
        session.window(expensive),
        window_len(expensive),
        quota(config, expensive),
        now,
    ).wait
}

/// The counters of a user: those that are kept, or those of a user who is
/// first seen at `now`.
pub open spec fn counters(limits: Map<usize, UserSession>, user: usize, now: u128) -> UserSession {
    if limits.contains_key(user) {
        limits[user]
    } else {
        UserSession {
            packet_time_cheap: now,
            packet_time_expensive: now,
            packets_cheap: 0,
            packets_expensive: 0,
        }
    }
}

/// The server as a mathematical value.
pub struct ServerView {
    pub config: Config,
    pub store: StoreView,
    pub registry: RegistryView,
    pub limits: Map<usize, UserSession>,
}

/// What goes out after one packet was handled.
#[derive(Debug)]
pub struct Outcome {
    /// The packets for the requester alone that go out first.
    pub first: Vec<Packet>,
    /// The event that goes out to `recipients` after them.
    pub event: Option<Packet>,
    /// The connections that receive the event.
    pub recipients: Vec<usize>,
    /// The packets for the requester alone that go out last.
    pub last: Vec<Packet>,
    /// The connections that end.
    pub closed: Vec<usize>,
}

/// The view of `Outcome`.
pub struct OutcomeView {
    pub first: Seq<PacketView>,
    pub event: Option<PacketView>,
    pub recipients: Seq<usize>,
    pub last: Seq<PacketView>,
    pub closed: Seq<usize>,
}

/// The view of an optional packet.
pub open spec fn opt_packet(p: Option<Packet>) -> Option<PacketView> {
    match p {
        Some(p) => Some(p@),
        None => None,
    }
}

impl View for Outcome {
    type V = OutcomeView;

    open spec fn view(&self) -> OutcomeView {
        OutcomeView {
            first: packet_views(self.first@),
            event: opt_packet(self.event),
            recipients: self.recipients@,
            last: packet_views(self.last@),
            closed: self.closed@,
        }
    }
}

/// The outcome in which nothing goes out and no connection ends.
pub open spec fn nothing() -> OutcomeView {
    OutcomeView {
        first: Seq::empty(),
        event: None,
        recipients: Seq::empty(),
        last: Seq::empty(),
        closed: Seq::empty(),
    }
}

/// Whether a session receives an event: it is logged in and, for an event
/// of a channel, its user may read in the channel.
pub open spec fn receives(
    config: Config,
    s: StoreView,
    audience: AudienceView,
    session: Session,
) -> bool {
    match session.id {
        None => false,
        Some(user) => match audience {
            AudienceView::Everyone => true,
            AudienceView::Readers(overrides) => {
                let a = s.account_index(user);
                a >= 0 && permitted(config, user, mask_of(s, a, Some(overrides)), PERM_READ)
            },
        },
    }
}

/// The test of `receives` as a predicate on sessions.
pub open spec fn receives_test(config: Config, s: StoreView, audience: AudienceView) -> spec_fn(
    Session,
) -> bool {
    |session: Session| receives(config, s, audience, session)
}

/// The server after a request of the connection at index `i` was decided,
/// and what goes out.
///
/// The session is logged in where the reaction says so; then the sessions
/// of an expelled user end; then the event goes to the sessions that
/// receive it; then the requester's session ends where the reaction says
/// so.
pub open spec fn settle(
    v: ServerView,
    limits: Map<usize, UserSession>,
    i: int,
    step: Step,
) -> (ServerView, OutcomeView) {
    let conn_id = v.registry.sessions[i].conn_id;
    let logged = match step.out.login {
        Some(user) => v.registry.login(i, user),
        None => v.registry,
    };
    let expelled = match step.out.expel {
        Some(user) => logged.expel(user),
        None => logged,
    };
    let gone = match step.out.expel {
        Some(user) => conn_ids(keep(logged.sessions, user_test(user))),
        None => Seq::empty(),
    };
    let closed = if step.out.close {
        expelled.close(conn_id)
    } else {
        expelled
    };
    (
        ServerView { config: v.config, store: step.store, registry: closed, limits },
        OutcomeView {
            first: step.out.first,
            event: match step.out.event {
                Some(e) => Some(e.packet),
                None => None,
            },
            recipients: match step.out.event {
                Some(e) => conn_ids(
                    keep(expelled.sessions, receives_test(v.config, step.store, e.audience)),
                ),
                None => Seq::empty(),
            },
            last: step.out.last,
            closed: if step.out.close {
                gone.push(conn_id)
            } else {
                gone
            },
        },
    )
}

/// The reaction that tells a requester how long to wait.
pub open spec fn rate_limited(seconds: u64) -> ReactionView {
    ReactionView { first: seq![PacketView::RateLimited(seconds)], ..silence() }
}

/// What one packet from one connection does to the server at the instant
/// `now` of the monotonic clock and the time `time` of the calendar.
///
/// `verified`, `hash` and `token` are the outside work that a login or a
/// change to one's own account needs.
///
/// A packet from a connection that is not live does nothing. Before a
/// session is logged in it may only log in; any other packet ends it
/// without a reply. A login for a name that has an account counts as an
/// expensive request of that account. A logged-in session may make
/// requests and may close; any other packet ends it without a reply. A
/// request that the limiter rejects is answered with the seconds to wait
/// and has no other effect.
pub open spec fn serve(
    v: ServerView,
    conn_id: usize,
    packet: PacketView,
    now: u128,
    time: i64,
    verified: Option<bool>,
    hash: Option<Seq<char>>,
    token: Option<Seq<char>>,
) -> (ServerView, OutcomeView) {
    let i = v.registry.index(conn_id);
    if i < 0 {
        (v, nothing())
    } else {
        match v.registry.sessions[i].id {
            None => match packet {
                PacketView::Login(req) => {
                    let k = v.store.name_index(req.name);
                    if k >= 0 {
                        let user = v.store.accounts[k].user.id;
                        let before = counters(v.limits, user, now);
                        let limits = v.limits.insert(user, charged(before, v.config, true, now));
                        match wait_of(before, v.config, true, now) {
                            Some(seconds) => settle(
                                v,
                                limits,
                                i,
                                Step { store: v.store, out: rate_limited(seconds) },
                            ),
                            None => settle(
                                v,
                                limits,
                                i,
                                login_spec(
                                    v.config,
                                    v.store,
                                    v.registry.sessions[i].ip,
                                    req,
                                    verified,
                                    hash,
                                    token,
                                ),
                            ),
                        }
                    } else {
                        settle(
                            v,
                            v.limits,
                            i,
                            login_spec(
                                v.config,
                                v.store,
                                v.registry.sessions[i].ip,
                                req,
                                verified,
                                hash,
                                token,
                            ),
                        )
                    }
                },
                _ => settle(v, v.limits, i, Step { store: v.store, out: closing() }),
            },
            Some(user) => {
                let a = v.store.account_index(user);
                if packet is Close || !is_request(packet) {
                    settle(v, v.limits, i, Step { store: v.store, out: closing() })
                } else if a < 0 {
                    settle(v, v.limits, i, Step { store: v.store, out: failure() })
                } else {
                    match class_of(packet) {
                        Some(expensive) => {
                            let before = counters(v.limits, user, now);
                            let limits = v.limits.insert(
                                user,
                                charged(before, v.config, expensive, now),
                            );
                            match wait_of(before, v.config, expensive, now) {
                                Some(seconds) => settle(
                                    v,
                                    limits,
                                    i,
                                    Step { store: v.store, out: rate_limited(seconds) },
                                ),
                                None => settle(
                                    v,
                                    limits,
                                    i,
                                    react(v.config, v.store, a, packet, time, verified, hash, token),
                                ),
                            }
                        },
                        None => settle(
                            v,
                            v.limits,
                            i,
                            react(v.config, v.store, a, packet, time, verified, hash, token),
                        ),
                    }
                }
            },
        }
    }
}

/// The password that a packet asks to hash: that of a login, or the new
/// one of a change to one's own account.
pub open spec fn secret_of(packet: PacketView) -> Option<Seq<char>> {
    match packet {
        PacketView::Login(req) => req.password,
        PacketView::LoginUpdate(req) => req.password_new,
        _ => None,
    }
}

/// What the password check says of a packet: of a login, the verdict on
/// its password and the hash of the account that it names; of a change to
/// one's own account, the verdict on the current password and the hash of
/// the requester's account.
pub open spec fn verdict_of(v: ServerView, conn_id: usize, packet: PacketView) -> Option<bool> {
    match packet {
        PacketView::Login(req) => login_verdict(v.store, req),
        PacketView::LoginUpdate(req) => {
            let i = v.registry.index(conn_id);
            if i >= 0 && v.registry.sessions[i].id is Some {
                update_verdict(v.store, v.store.account_index(v.registry.sessions[i].id->0), req)
            } else {
                None
            }
        },
        _ => None,
    }
}

/// What the password check says of a request of the account at index
/// `a`: of a change to one's own account, the verdict on the current
/// password and the hash of the account.
pub open spec fn request_verdict(s: StoreView, a: int, packet: PacketView) -> Option<bool> {
    match packet {
        PacketView::LoginUpdate(req) => update_verdict(s, a, req),
        _ => None,
    }
}

/// Whether a hash and a token are what the outside work on a packet may
/// give: a hash that the password check accepts for the password of the
/// packet, and a token of the right form.
pub open spec fn secrets_fit(
    packet: PacketView,
    hash: Option<Seq<char>>,
    token: Option<Seq<char>>,
) -> bool {
    &&& hash matches Some(h) ==> secret_of(packet) is Some && bcrypt_verdict(secret_of(packet)->0, h)
        == Some(true)
    &&& token matches Some(t) ==> is_token(t)
}

fn charge(
    limits: &mut HashMap<usize, UserSession>,
    config: &Config,
    user: usize,
    expensive: bool,
    now: u128,
) -> (wait: Option<u64>)
    ensures
        wait == wait_of(counters(old(limits)@, user, now), *config, expensive, now),
        final(limits)@ == old(limits)@.insert(
            user,
            charged(counters(old(limits)@, user, now), *config, expensive, now),
        ),
{
    broadcast use vstd::std_specs::hash::group_hash_axioms;

    let mut session = match limits.get(&user) {
        Some(kept) => *kept,
        None => UserSession::new(now),
    };
    let ghost before = session;
    let wait = check_rate_limits(config, expensive, &mut session, now);
    assert(session == charged(before, *config, expensive, now));
    limits.insert(user, session);
    wait
}

fn recipients(
    config: &Config,
    store: &Store,
    registry: &Registry,
    audience: &Audience,
) -> (out: Vec<usize>)
    ensures
        out@ == conn_ids(keep(registry@.sessions, receives_test(*config, store@, audience@))),
{
    let ghost p = receives_test(*config, store@, audience@);
    let sessions = registry.sessions();
    let mut out: Vec<usize> = Vec::new();
    let mut i: usize = 0;
    assert(out@ =~= conn_ids(keep(sessions@.take(0), p)));
    while i < sessions.len()
        invariant
            i <= sessions.len(),
            p == receives_test(*config, store@, audience@),
            out@ == conn_ids(keep(sessions@.take(i as int), p)),
        decreases sessions.len() - i,
    {
        assert(sessions@.take(i + 1).drop_last() =~= sessions@.take(i as int));
        let ghost seen = keep(sessions@.take(i as int), p);
        let session = sessions[i];
        let takes = match session.id {
            None => false,
            Some(user) => match audience {
                Audience::Everyone => true,
                Audience::Readers(overrides) => {
                    match calculate_permissions_by_user(store, user, Some(overrides)) {
                        Some(m) => has_perm(config, user, m, PERM_READ),
                        None => false,
                    }
                },
            },
        };
        assert(takes == receives(*config, store@, audience@, session));
        if takes {
            out.push(session.conn_id);
            assert(out@ =~= conn_ids(seen.push(session)));
        }
        i += 1;
    }
    assert(sessions@.take(sessions.len() as int) =~= sessions@);
    out
}

/// Decides a request of the account at index `a` at the time `time`.
///
/// What the request does is `react`, over the verdict of the password
/// check and over some hash and some token that fit the packet, which a
/// change to one's own account may need.
pub fn dispatch(config: &Config, store: &mut Store, a: usize, packet: Packet, time: i64) -> (out:
    Reaction)
    requires
        old(store).wf(),
        a < old(store)@.accounts.len(),
    ensures
        final(store).wf(),
        exists|hash: Option<Seq<char>>, token: Option<Seq<char>>|
            {
                &&& secrets_fit(packet@, hash, token)
                &&& (Step { store: final(store)@, out: out@ }) == #[trigger] react(
                    *config,
                    old(store)@,
                    a as int,
                    packet@,
                    time,
                    request_verdict(old(store)@, a as int, packet@),
                    hash,
                    token,
                )
            },
{
    let ghost s = store@;
    let ghost p = packet@;
    let ghost verdict = request_verdict(s, a as int, p);
    let ghost mut hash: Option<Seq<char>> = None;
    let ghost mut token: Option<Seq<char>> = None;
    let out = match packet {
        Packet::LoginUpdate(req) => {
            let out = login_update(config, store, a, req);
            proof {
                let found = choose|h: Option<Seq<char>>, t: Option<Seq<char>>|
                    {
                        &&& h matches Some(text) ==> req@.password_new is Some && bcrypt_verdict(
                            req@.password_new->0,
                            text,
                        ) == Some(true)
                        &&& t matches Some(text) ==> is_token(text)
                        &&& (Step { store: store@, out: out@ }) == #[trigger] login_update_spec(
                            *config,
                            s,
                            a as int,
                            req@,
                            update_verdict(s, a as int, req@),
                            h,
                            t,
                        )
                    };
                hash = found.0;
                token = found.1;
            }
            out
        },
        Packet::ChannelCreate(req) => channel_create(config, store, a, req),
        Packet::ChannelUpdate(req) => channel_update(config, store, a, req),
        Packet::ChannelDelete(req) => channel_delete(config, store, a, req),
        Packet::AttributeCreate(req) => attribute_create(config, store, a, req),
        Packet::AttributeUpdate(req) => attribute_update(config, store, a, req),
        Packet::AttributeDelete(req) => attribute_delete(config, store, a, req),
        Packet::MessageCreate(req) => message_create(config, store, a, req, time),
        Packet::MessageUpdate(req) => message_update(config, store, a, req, time),
        Packet::MessageDelete(req) => message_delete(config, store, a, req),
        Packet::MessageList(req) => message_list(config, store, a, req),
        Packet::UserUpdate(req) => user_update(config, store, a, req),
        Packet::Typing(req) => typing(config, store, a, req),
        _ => hang_up(),
    };
    proof {
        assert(secrets_fit(p, hash, token));
        assert((Step { store: store@, out: out@ }) == react(
            *config,
            s,
            a as int,
            p,
            time,
            verdict,
            hash,
            token,
        ));
    }
    out
}

fn slow_down(seconds: u64) -> (out: Reaction)
    ensures
        out@ == rate_limited(seconds),
{
    let mut out = silent();
    out.first.push(Packet::RateLimited(seconds));
    assert(out@.first =~= seq![PacketView::RateLimited(seconds)]);
    out
}

/// Whether a packet is counted by the limiter, and in which class.
pub fn classify(packet: &Packet) -> (class: Option<bool>)
    ensures
        class == class_of(packet@),
{
    match packet {
        Packet::LoginUpdate(req) => Some(
            req.reset_token || (req.password_current.is_some() && req.password_new.is_some()),
        ),
        Packet::ChannelCreate(_) => Some(false),
        Packet::ChannelUpdate(_) => Some(false),
        Packet::ChannelDelete(_) => Some(false),
        Packet::AttributeCreate(_) => Some(false),
        Packet::AttributeUpdate(_) => Some(false),
        Packet::AttributeDelete(_) => Some(false),
        Packet::MessageCreate(_) => Some(false),
        Packet::MessageUpdate(_) => Some(false),
        Packet::MessageDelete(_) => Some(false),
        Packet::MessageList(_) => Some(false),
        Packet::UserUpdate(_) => Some(false),
        _ => None,
    }
}

fn typing_packet(packet: &Packet) -> (yes: bool)
    ensures
        yes == (packet@ is Typing),
{
    match packet {
        Packet::Typing(_) => true,
        _ => false,
    }
}

/// A chat server: its configuration, its state, its live connections and
/// the rate limits of its users.
pub struct Server {
    config: Config,
    store: Store,
    registry: Registry,
    limits: HashMap<usize, UserSession>,
    origin: std::time::Instant,
}

impl View for Server {
    type V = ServerView;

    closed spec fn view(&self) -> ServerView {
        ServerView {
            config: self.config,
            store: self.store@,
            registry: self.registry@,
            limits: self.limits@,
        }
    }
}

impl Server {
    /// Whether the server keeps its rules.
    pub open spec fn wf(&self) -> bool {
        self@.store.ok() && self@.registry.ok()
    }

    /// A server over a state, without connections.
    pub fn new(config: Config, store: Store) -> (server: Server)
        requires
            store.wf(),
        ensures
            server.wf(),
            server@.config == config,
            server@.store == store@,
            server@.registry.sessions.len() == 0,
            server@.registry.next_conn == 0,
            server@.limits == Map::<usize, UserSession>::empty(),
    {
        Server {
            config,
            store,
            registry: Registry::new(),
            limits: HashMap::new(),
            origin: instant_now(),
        }
    }

    /// The configuration.
    pub fn config(&self) -> (out: &Config)
        ensures
            *out == self@.config,
    {
        &self.config
    }

    /// The state.
    pub fn store(&self) -> (out: &Store)
        ensures
            out@ == self@.store,
    {
        &self.store
    }

    /// The live connections.
    pub fn registry(&self) -> (out: &Registry)
        ensures
            out@ == self@.registry,
    {
        &self.registry
    }

    /// Lets in or refuses a peer that connects from `ip`. A peer that is
    /// refused with `Err(Some(code))` is sent the error code before its
    /// connection is closed; `Err(None)` says that the connection ids have
    /// run out.
    pub fn accept(&mut self, ip: u128) -> (out: Result<usize, Option<u8>>)
        requires
            old(self).wf(),
        ensures
            final(self).wf(),
            out == old(self)@.registry.admission(
                old(self)@.config.limit_connections_per_ip,
                old(self)@.store.banned_address(ip),
                ip,
            ),
            final(self)@ == (ServerView {
                registry: if out is Ok {
                    old(self)@.registry.enter(ip)
                } else {
                    old(self)@.registry
                },
                ..old(self)@
            }),
    {
        let banned = self.store.banned_address(ip);
        self.registry.enter(self.config.limit_connections_per_ip, banned, ip)
    }

    /// Ends a connection: the peer went away, or reading from it or
    /// writing to it failed for good.
    pub fn disconnect(&mut self, conn_id: usize)
        requires
            old(self).wf(),
        ensures
            final(self).wf(),
            final(self)@ == (ServerView {
                registry: old(self)@.registry.close(conn_id),
                ..old(self)@
            }),
    {
        self.registry.close(conn_id);
    }

    /// Takes the length that a connection announced for its next frame. An
    /// empty frame holds no packet and ends the connection; after any other
    /// length the payload is to be read.
    pub fn frame_announced(&mut self, conn_id: usize, size: u16) -> (go_on: bool)
        requires
            old(self).wf(),
        ensures
            final(self).wf(),
            go_on == (size != 0),
            final(self)@ == (ServerView {
                registry: if size == 0 {
                    old(self)@.registry.close(conn_id)
                } else {
                    old(self)@.registry
                },
                ..old(self)@
            }),
    {
        if size == 0 {
            self.registry.close(conn_id);
            false
        } else {
            true
        }
    }

    /// Notes that an event could not be delivered to a connection. A
    /// broken pipe ends the connection; after any other failure it stays.
    pub fn delivery_failed(&mut self, conn_id: usize, broken_pipe: bool)
        requires
            old(self).wf(),
        ensures
            final(self).wf(),
            final(self)@ == (ServerView {
                registry: if broken_pipe {
                    old(self)@.registry.close(conn_id)
                } else {
                    old(self)@.registry
                },
                ..old(self)@
            }),
    {
        if broken_pipe {
            self.registry.close(conn_id);
        }
    }

    fn settle(
        &mut self,
        i: usize,
        reaction: Reaction,
        Ghost(before): Ghost<ServerView>,
        Ghost(step): Ghost<Step>,
    ) -> (out: Outcome)
        requires
            old(self).store.wf(),
            old(self).registry.wf(),
            i < old(self).registry@.sessions.len(),
            old(self).registry@ == before.registry,
            old(self).config == before.config,
            step == (Step { store: old(self).store@, out: reaction@ }),
        ensures
            final(self).wf(),
            (final(self)@, out@) == settle(before, old(self).limits@, i as int, step),
    {
        let conn_id = self.registry.sessions()[i].conn_id;
        match reaction.login {
            Some(user) => {
                self.registry.login(i, user);
            },
            None => {},
        }
        let mut closed: Vec<usize> = match reaction.expel {
            Some(user) => self.registry.expel(user),
            None => Vec::new(),
        };
        let (event, to) = match reaction.event {
            Some(e) => {
                let to = recipients(&self.config, &self.store, &self.registry, &e.audience);
                (Some(e.packet), to)
            },
            None => (None, Vec::new()),
        };
        if reaction.close {
            self.registry.close(conn_id);
            closed.push(conn_id);
        }
        Outcome { first: reaction.first, event, recipients: to, last: reaction.last, closed }
    }

    /// Handles one packet from one connection at the instant `now`, in
    /// nanoseconds of the monotonic clock, and the time `time`, in seconds
    /// of the calendar.
    ///
    /// What the packet does is `serve`, over the verdict of the password
    /// check, which is a function of the password and the stored hash, and
    /// over some hash and some token that fit the packet, which are drawn
    /// at random where the packet needs them.
    pub fn handle_at(&mut self, conn_id: usize, packet: Packet, now: u128, time: i64) -> (out:
        Outcome)
        requires
            old(self).wf(),
        ensures
            final(self).wf(),
            exists|hash: Option<Seq<char>>, token: Option<Seq<char>>|
                {
                    &&& secrets_fit(packet@, hash, token)
                    &&& (final(self)@, out@) == #[trigger] serve(
                        old(self)@,
                        conn_id,
                        packet@,
                        now,
                        time,
                        verdict_of(old(self)@, conn_id, packet@),
                        hash,
                        token,
                    )
                },
    {
        let ghost v = self@;
        let ghost p = packet@;
        let ghost verdict = verdict_of(v, conn_id, p);
        let ghost mut hash: Option<Seq<char>> = None;
        let ghost mut token: Option<Seq<char>> = None;
        let i = match self.registry.find(conn_id) {
            Some(i) => i,
            None => {
                let out = Outcome {
                    first: Vec::new(),
                    event: None,
                    recipients: Vec::new(),
                    last: Vec::new(),
                    closed: Vec::new(),
                };
                proof {
                    assert(out@.first =~= Seq::<PacketView>::empty());
                    assert(out@.last =~= Seq::<PacketView>::empty());
                    assert(secrets_fit(p, hash, token));
                    assert((self@, out@) == serve(v, conn_id, p, now, time, verdict, hash, token));
                }
                return out;
            },
        };
        let session = self.registry.sessions()[i];
        let reaction = match session.id {
            None => match packet {
                Packet::Login(req) => {
                    let wait = match self.store.find_user_by_name(req.name.as_str()) {
                        Some(k) => {
                            let user = self.store.account(k).user.id;
                            charge(&mut self.limits, &self.config, user, true, now)
                        },
                        None => None,
                    };
                    match wait {
                        Some(seconds) => slow_down(seconds),
                        None => {
                            let reaction = login(&self.config, &mut self.store, session.ip, req);
                            proof {
                                let found = choose|h: Option<Seq<char>>, t: Option<Seq<char>>|
                                    {
                                        &&& h matches Some(text) ==> req@.password is Some
                                            && bcrypt_verdict(req@.password->0, text) == Some(true)
                                        &&& t matches Some(text) ==> is_token(text)
                                        &&& (Step { store: self.store@, out: reaction@ })
                                            == #[trigger] login_spec(
                                            v.config,
                                            v.store,
                                            session.ip,
                                            req@,
                                            login_verdict(v.store, req@),
                                            h,
                                            t,
                                        )
                                    };
                                hash = found.0;
                                token = found.1;
                            }
                            reaction
                        },
                    }
                },
                _ => hang_up(),
            },
            Some(user) => {
                let class = classify(&packet);
                if class.is_none() && !typing_packet(&packet) {
                    hang_up()
                } else {
                    match self.store.find_user(user) {
                        None => fail(),
                        Some(a) => {
                            let wait = match class {
                                Some(expensive) => charge(
                                    &mut self.limits,
                                    &self.config,
                                    user,
                                    expensive,
                                    now,
                                ),
                                None => None,
                            };
                            match wait {
                                Some(seconds) => slow_down(seconds),
                                None => {
                                    let reaction = dispatch(
                                        &self.config,
                                        &mut self.store,
                                        a,
                                        packet,
                                        time,
                                    );
                                    proof {
                                        let found = choose|
                                            h: Option<Seq<char>>,
                                            t: Option<Seq<char>>,
                                        |
                                            {
                                                &&& secrets_fit(p, h, t)
                                                &&& (Step { store: self.store@, out: reaction@ })
                                                    == #[trigger] react(
                                                    v.config,
                                                    v.store,
                                                    a as int,
                                                    p,
                                                    time,
                                                    request_verdict(v.store, a as int, p),
                                                    h,
                                                    t,
                                                )
                                            };
                                        hash = found.0;
                                        token = found.1;
                                        assert(request_verdict(v.store, a as int, p) == verdict);
                                    }
                                    reaction
                                },
                            }
                        },
                    }
                }
            },
        };
        let ghost step = Step { store: self.store@, out: reaction@ };
        let out = self.settle(i, reaction, Ghost(v), Ghost(step));
        proof {
            assert(secrets_fit(p, hash, token));
            assert((self@, out@) == serve(v, conn_id, p, now, time, verdict, hash, token));
        }
        out
    }

    /// Handles one packet from one connection now: reads the clocks, and
    /// does what `handle_at` does at what they say.
    pub fn handle(&mut self, conn_id: usize, packet: Packet) -> (out: Outcome)
        requires
            old(self).wf(),
        ensures
            final(self).wf(),
            exists|now: u128, time: i64, hash: Option<Seq<char>>, token: Option<Seq<char>>|
                {
                    &&& secrets_fit(packet@, hash, token)
                    &&& (final(self)@, out@) == #[trigger] serve(
                        old(self)@,
                        conn_id,
                        packet@,
                        now,
                        time,
                        verdict_of(old(self)@, conn_id, packet@),
                        hash,
                        token,
                    )
                },
    {
        let gone = elapsed(&self.origin);
        let now = as_nanos(&gone);
        let time = unix_time();
        self.handle_at(conn_id, packet, now, time)
    }
}

/// A request that the limiter rejects has no effect: it changes neither
/// the state nor the connections, nothing is announced to anybody, and the
/// requester is told how long to wait.
pub proof fn lemma_rejected_request_has_no_effect(
    v: ServerView,
    conn_id: usize,
    packet: PacketView,
    now: u128,
    time: i64,
    verified: Option<bool>,
    hash: Option<Seq<char>>,
    token: Option<Seq<char>>,
)
    requires
        v.registry.index(conn_id) >= 0,
        v.registry.sessions[v.registry.index(conn_id)].id is Some,
        v.store.account_index(v.registry.sessions[v.registry.index(conn_id)].id->0) >= 0,
        class_of(packet) is Some,
        wait_of(
            counters(v.limits, v.registry.sessions[v.registry.index(conn_id)].id->0, now),
            v.config,
            class_of(packet)->0,
            now,
        ) is Some,
    ensures
        ({
            let user = v.registry.sessions[v.registry.index(conn_id)].id->0;
            let expensive = class_of(packet)->0;
            let wait = wait_of(counters(v.limits, user, now), v.config, expensive, now)->0;
            let after = serve(v, conn_id, packet, now, time, verified, hash, token);
            &&& after.0.store == v.store
            &&& after.0.registry == v.registry
            &&& after.0.limits == v.limits.insert(user, counters(v.limits, user, now))
            &&& after.1 == (OutcomeView { first: seq![PacketView::RateLimited(wait)], ..nothing() })
        }),
{
    let user = v.registry.sessions[v.registry.index(conn_id)].id->0;
    let expensive = class_of(packet)->0;
    crate::limiter::lemma_rejection(
        counters(v.limits, user, now).window(expensive),
        expensive,
        quota(v.config, expensive),
        now,
    );
}

/// Before a session is logged in it may only log in: any other packet
/// ends the session without a reply and leaves the state as it was.
pub proof fn lemma_only_login_before_login(
    v: ServerView,
    conn_id: usize,
    packet: PacketView,
    now: u128,
    time: i64,
    verified: Option<bool>,
    hash: Option<Seq<char>>,
    token: Option<Seq<char>>,
)
    requires
        v.registry.index(conn_id) >= 0,
        v.registry.sessions[v.registry.index(conn_id)].id is None,
        !(packet is Login),
    ensures
        ({
            let after = serve(v, conn_id, packet, now, time, verified, hash, token);
            &&& after.0.store == v.store
            &&& after.0.limits == v.limits
            &&& after.0.registry == v.registry.close(v.registry.sessions[v.registry.index(conn_id)].conn_id)
            &&& after.1 == (OutcomeView {
                closed: seq![v.registry.sessions[v.registry.index(conn_id)].conn_id],
                ..nothing()
            })
        }),
{
    let conn = v.registry.sessions[v.registry.index(conn_id)].conn_id;
    assert(Seq::<usize>::empty().push(conn) =~= seq![conn]);
}

/// Position density at every state: whatever packet is served in a state
/// that keeps its rules, the role table is well-formed afterwards, so the
/// positions of the roles that are not system roles are exactly 1..N.
pub proof fn lemma_density_at_every_state(
    v: ServerView,
    conn_id: usize,
    packet: PacketView,
    now: u128,
    time: i64,
    verified: Option<bool>,
    hash: Option<Seq<char>>,
    token: Option<Seq<char>>,
)
    requires
        v.store.ok(),
    ensures
        ({
            let roles = serve(v, conn_id, packet, now, time, verified, hash, token).0.store.roles;
            &&& table_ok(roles)
            &&& forall|p: int| 1 <= p <= others(roles) ==> (#[trigger] roles[p + 1]).pos == p
            &&& forall|i: int| 2 <= i < roles.len() ==> 1 <= (#[trigger] roles[i]).pos <= others(roles)
        }),
{
    let s = v.store;
    let roles = serve(v, conn_id, packet, now, time, verified, hash, token).0.store.roles;
    let i = v.registry.index(conn_id);
    if i >= 0 && roles != s.roles {
        let user = v.registry.sessions[i].id->0;
        let a = s.account_index(user);
        lemma_role_requests_are_table_changes(v.config, s, a, packet);
        match packet {
            PacketView::AttributeCreate(req) => {
                lemma_op_ok(s.roles, RoleOp::Create(created_role(s, req)));
            },
            PacketView::AttributeUpdate(req) => {
                lemma_op_ok(
                    s.roles,
                    RoleOp::Update(updated_role(s, s.role_index(req.inner.id), req.inner)),
                );
            },
            PacketView::AttributeDelete(req) => {
                lemma_op_ok(s.roles, RoleOp::Delete(req.id));
            },
            _ => {},
        }
    }
    lemma_positions_dense(roles);
}

} // verus!
