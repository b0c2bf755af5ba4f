//! Logging in, creating an account, and changing one's own account.

use crate::config::Config;
use crate::consts::{
    ERR_LIMIT_REACHED, ERR_LOGIN_BANNED, ERR_LOGIN_BOT, ERR_LOGIN_INVALID, ERR_MISSING_FIELD,
};
use crate::names::same_name;
use crate::outside::bcrypt_verdict;
use crate::packet::{
    AttributeReceive, AttributeReceiveView, ChannelReceive, ChannelReceiveView, Login, LoginSuccess,
    LoginSuccessView, LoginUpdate, LoginUpdateView, LoginView, Packet, PacketView, UserReceive,
    UserReceiveView,
};
use crate::secrets::{check_password, gen_token, hash_password, is_token};
use crate::seqs::lemma_first_match;
use crate::server::{
    fail, failed, out_of_range, packet_views, refuse, refused, silence, text_len, text_out_of_range,
    Audience, AudienceView, Event, EventView, Reaction, ReactionView, Step,
};
use crate::state::{AccountView, StoreView};
use crate::store::Store;
use crate::types::{opt_text, UserView};
use vstd::prelude::*;

verus! {

/// The state as a newcomer is told it: every role, then every channel,
/// then every user.
pub open spec fn snapshot(s: StoreView) -> Seq<PacketView> {
    Seq::new(
        s.roles.len(),
        |i: int| PacketView::AttributeReceive(AttributeReceiveView { inner: s.roles[i], new: false }),
    ) + Seq::new(
        s.channels.len(),
        |i: int| PacketView::ChannelReceive(ChannelReceiveView { inner: s.channels[i] }),
    ) + Seq::new(
        s.accounts.len(),
        |i: int| PacketView::UserReceive(UserReceiveView { inner: s.accounts[i].user }),
    )
}

/// The reaction to a login that succeeds: the outcome, then the state.
pub open spec fn welcome(s: StoreView, id: usize, token: Seq<char>, created: bool) -> ReactionView {
    ReactionView {
        first: seq![PacketView::LoginSuccess(LoginSuccessView { created, id, token })],
        last: snapshot(s),
        login: Some(id),
        ..silence()
    }
}

/// A login into the account at index `k` from the address `ip`: the
/// address is noted, and the session is logged in.
pub open spec fn entered(s: StoreView, k: int, ip: u128) -> Step {
    let after = s.set_account(k, AccountView { last_ip: ip, ..s.accounts[k] });
    Step {
        store: after,
        out: welcome(after, s.accounts[k].user.id, s.accounts[k].token, false),
    }
}

/// A login with the right password or token into the account at index
/// `k`: an account of the other kind, bot or human, refuses it with
/// `ERR_LOGIN_BOT`; else the session is logged in.
pub open spec fn entered_as(s: StoreView, k: int, ip: u128, bot: bool) -> Step {
    if s.accounts[k].user.bot != bot {
        refused(s, ERR_LOGIN_BOT)
    } else {
        entered(s, k, ip)
    }
}

/// The user of an account that is new.
pub open spec fn new_user(s: StoreView, req: LoginView) -> UserView {
    UserView { attributes: Seq::empty(), ban: false, bot: req.bot, id: s.next_user, name: req.name }
}

/// The creation of an account from the address `ip`: the account gets the
/// next id, the user is announced to everyone, and the session is logged
/// in.
pub open spec fn created(
    s: StoreView,
    ip: u128,
    req: LoginView,
    hash: Seq<char>,
    token: Seq<char>,
) -> Step {
    let user = new_user(s, req);
    let after = s.add_account(AccountView { user, password: hash, token, last_ip: ip });
    Step {
        store: after,
        out: ReactionView {
            event: Some(
                EventView {
                    packet: PacketView::UserReceive(UserReceiveView { inner: user }),
                    audience: AudienceView::Everyone,
                },
            ),
            ..welcome(after, user.id, token, true)
        },
    }
}

/// What a login from the address `ip` does.
///
/// `verified` is what the password check said, where the request holds a
/// password for an account that exists; `hash` and `token` are the hash of
/// the password and a new token, where an account is to be created.
///
/// For a name that has an account: a banned account is refused with
/// `ERR_LOGIN_BANNED`; a wrong password or a wrong token with
/// `ERR_LOGIN_INVALID`; a request with neither with `ERR_MISSING_FIELD`;
/// the right password or token for an account of the other kind, bot or
/// human, with `ERR_LOGIN_BOT`.
/// For a name that has none: a request without a password is refused with
/// `ERR_LOGIN_INVALID`, a name outside the configured length with
/// `ERR_LIMIT_REACHED`, and any other request creates the account. A
/// password check, a hash or a token that could not be had is a failure
/// inside the server.
pub open spec fn login_spec(
    config: Config,
    s: StoreView,
    ip: u128,
    req: LoginView,
    verified: Option<bool>,
    hash: Option<Seq<char>>,
    token: Option<Seq<char>>,
) -> Step {
    let k = s.name_index(req.name);
    if k >= 0 {
        if s.accounts[k].user.ban {
            refused(s, ERR_LOGIN_BANNED)
        } else {
            match req.password {
                Some(_) => match verified {
                    Some(true) => entered_as(s, k, ip, req.bot),
                    Some(false) => refused(s, ERR_LOGIN_INVALID),
                    None => failed(s),
                },
                None => match req.token {
                    Some(given) => if given == s.accounts[k].token {
                        entered_as(s, k, ip, req.bot)
                    } else {
                        refused(s, ERR_LOGIN_INVALID)
                    },
                    None => refused(s, ERR_MISSING_FIELD),
                },
            }
        }
    } else {
        match req.password {
            None => refused(s, ERR_LOGIN_INVALID),
            Some(_) => if out_of_range(
                text_len(req.name),
                config.limit_user_name_min,
                config.limit_user_name_max,
            ) {
                refused(s, ERR_LIMIT_REACHED)
            } else if hash is None || token is None || !s.roomy() {
                failed(s)
            } else {
                created(s, ip, req, hash->0, token->0)
            },
        }
    }
}

/// The outside work that a login needs before it can be decided.
#[derive(Debug, Clone, Copy, PartialEq, Eq, Structural)]
pub enum Need {
    /// None.
    Nothing,
    /// The password must be checked against the hash of the account at
    /// this index.
    Check(usize),
    /// The password must be hashed, and a token made.
    Secrets,
}

/// Which outside work a login needs.
pub open spec fn login_need(config: Config, s: StoreView, req: LoginView) -> Need {
    let k = s.name_index(req.name);
    if k >= 0 {
        if !s.accounts[k].user.ban && req.password is Some {
            Need::Check(k as usize)
        } else {
            Need::Nothing
        }
    } else if req.password is Some && !out_of_range(
        text_len(req.name),
        config.limit_user_name_min,
        config.limit_user_name_max,
    ) {
        Need::Secrets
    } else {
        Need::Nothing
    }
}

/// Says which outside work a login needs.
pub fn login_needs(config: &Config, store: &Store, req: &Login) -> (need: Need)
    ensures
        need == login_need(*config, store@, req@),
        need matches Need::Check(k) ==> k < store@.accounts.len() && k == store@.name_index(
            req@.name,
        ),
{
    match store.find_user_by_name(req.name.as_str()) {
        Some(k) => {
            let account = store.account(k);
            if !account.user.ban && req.password.is_some() {
                Need::Check(k)
            } else {
                Need::Nothing
            }
        },
        None => {
            if req.password.is_some() && !text_out_of_range(
                req.name.as_str(),
                config.limit_user_name_min,
                config.limit_user_name_max,
            ) {
                Need::Secrets
            } else {
                Need::Nothing
            }
        },
    }
}

fn snapshot_of(store: &Store) -> (out: Vec<Packet>)
    ensures
        packet_views(out@) == snapshot(store@),
{
    let ghost s = store@;
    let mut out: Vec<Packet> = Vec::new();
    let roles = store.roles();
    let mut i: usize = 0;
    while i < roles.len()
        invariant
            i <= roles.len(),
            crate::types::attribute_views(roles@) == s.roles,
            out@.len() == i,
            forall|j: int|
                0 <= j < i ==> (#[trigger] out@[j])@ == PacketView::AttributeReceive(
                    AttributeReceiveView { inner: s.roles[j], new: false },
                ),
        decreases roles.len() - i,
    {
        assert(roles@[i as int]@ == s.roles[i as int]);
        out.push(Packet::AttributeReceive(AttributeReceive { inner: roles[i].clone(), new: false }));
        i += 1;
    }
    let channels = store.channels();
    let ghost r = s.roles.len() as int;
    let mut c: usize = 0;
    while c < channels.len()
        invariant
            c <= channels.len(),
            crate::state::channel_views(channels@) == s.channels,
            r == s.roles.len(),
            out@.len() == r + c,
            forall|j: int|
                0 <= j < r ==> (#[trigger] out@[j])@ == PacketView::AttributeReceive(
                    AttributeReceiveView { inner: s.roles[j], new: false },
                ),
            forall|j: int|
                0 <= j < c ==> (#[trigger] out@[r + j])@ == PacketView::ChannelReceive(
                    ChannelReceiveView { inner: s.channels[j] },
                ),
        decreases channels.len() - c,
    {
        assert(channels@[c as int]@ == s.channels[c as int]);
        let ghost before = out@;
        out.push(Packet::ChannelReceive(ChannelReceive { inner: channels[c].clone() }));
        assert forall|j: int| 0 <= j < c implies (#[trigger] out@[r + j])@
            == PacketView::ChannelReceive(ChannelReceiveView { inner: s.channels[j] }) by {
            assert(out@[r + j] == before[r + j]);
        }
        c += 1;
    }
    let accounts = store.accounts();
    let ghost rc = r + s.channels.len() as int;
    let mut u: usize = 0;
    while u < accounts.len()
        invariant
            u <= accounts.len(),
            crate::state::account_views(accounts@) == s.accounts,
            r == s.roles.len(),
            rc == r + s.channels.len(),
            out@.len() == rc + u,
            forall|j: int|
                0 <= j < r ==> (#[trigger] out@[j])@ == PacketView::AttributeReceive(
                    AttributeReceiveView { inner: s.roles[j], new: false },
                ),
            forall|j: int|
                0 <= j < rc - r ==> (#[trigger] out@[r + j])@ == PacketView::ChannelReceive(
                    ChannelReceiveView { inner: s.channels[j] },
                ),
            forall|j: int|
                0 <= j < u ==> (#[trigger] out@[rc + j])@ == PacketView::UserReceive(
                    UserReceiveView { inner: s.accounts[j].user },
                ),
        decreases accounts.len() - u,
    {
        assert(accounts@[u as int]@ == s.accounts[u as int]);
        let ghost before = out@;
        out.push(Packet::UserReceive(UserReceive { inner: accounts[u].user.clone() }));
        assert forall|j: int| 0 <= j < rc - r implies (#[trigger] out@[r + j])@
            == PacketView::ChannelReceive(ChannelReceiveView { inner: s.channels[j] }) by {
            assert(out@[r + j] == before[r + j]);
        }
        assert forall|j: int| 0 <= j < u implies (#[trigger] out@[rc + j])@
            == PacketView::UserReceive(UserReceiveView { inner: s.accounts[j].user }) by {
            assert(out@[rc + j] == before[rc + j]);
        }
        u += 1;
    }
    proof {
        let got = packet_views(out@);
        let want = snapshot(s);
        assert(got.len() == want.len());
        assert forall|j: int| 0 <= j < got.len() implies got[j] == want[j] by {
            if j < r {
            } else if j < rc {
                assert(out@[r + (j - r)] == out@[j]);
            } else {
                assert(out@[rc + (j - rc)] == out@[j]);
            }
        }
        assert(got =~= want);
    }
    out
}

fn welcome_of(store: &Store, id: usize, token: String, created: bool) -> (out: Reaction)
    ensures
        out@ == welcome(store@, id, token@, created),
{
    let mut first: Vec<Packet> = Vec::new();
    first.push(Packet::LoginSuccess(LoginSuccess { created, id, token }));
    let out = Reaction {
        first,
        event: None,
        last: snapshot_of(store),
        close: false,
        expel: None,
        login: Some(id),
    };
    assert(out@.first =~= seq![
        PacketView::LoginSuccess(LoginSuccessView { created, id, token: token@ }),
    ]);
    out
}

/// Decides a login once the outside work that it needs is done: `verified`
/// is the outcome of the password check, `hash` the hash of the password
/// and `token` a new token.
pub fn login_step(
    config: &Config,
    store: &mut Store,
    ip: u128,
    req: Login,
    verified: Option<bool>,
    hash: Option<String>,
    token: Option<String>,
) -> (out: Reaction)
    requires
        old(store).wf(),
    ensures
        final(store).wf(),
        (Step { store: final(store)@, out: out@ }) == login_spec(
            *config,
            old(store)@,
            ip,
            req@,
            verified,
            opt_text(hash),
            opt_text(token),
        ),
{
    let ghost s = store@;
    match store.find_user_by_name(req.name.as_str()) {
        Some(k) => {
            let account = store.account(k);
            if account.user.ban {
                return refuse(ERR_LOGIN_BANNED);
            }
            let id = account.user.id;
            let bot = account.user.bot;
            let held = account.token.clone();
            match req.password {
                Some(_) => match verified {
                    Some(true) => {},
                    Some(false) => {
                        return refuse(ERR_LOGIN_INVALID);
                    },
                    None => {
                        return fail();
                    },
                },
                None => match req.token {
                    Some(given) => {
                        if given != held {
                            return refuse(ERR_LOGIN_INVALID);
                        }
                    },
                    None => {
                        return refuse(ERR_MISSING_FIELD);
                    },
                },
            }
            if bot != req.bot {
                return refuse(ERR_LOGIN_BOT);
            }
            store.set_last_ip(k, ip);
            welcome_of(store, id, held, false)
        },
        None => {
            if req.password.is_none() {
                return refuse(ERR_LOGIN_INVALID);
            }
            if text_out_of_range(
                req.name.as_str(),
                config.limit_user_name_min,
                config.limit_user_name_max,
            ) {
                return refuse(ERR_LIMIT_REACHED);
            }
            let hash = match hash {
                Some(h) => h,
                None => {
                    return fail();
                },
            };
            let token = match token {
                Some(t) => t,
                None => {
                    return fail();
                },
            };
            if !store.has_room() {
                return fail();
            }
            let copy = token.clone();
            let user = store.create_account(req.name, req.bot, hash, token, ip);
            let id = user.id;
            let mut out = welcome_of(store, id, copy, true);
            out.event = Some(
                Event { packet: Packet::UserReceive(UserReceive { inner: user }), audience: Audience::Everyone },
            );
            out
        },
    }
}

/// What the password check says of a login: the verdict on the password
/// and the hash of the account, where the request holds a password for an
/// account that exists.
pub open spec fn login_verdict(s: StoreView, req: LoginView) -> Option<bool> {
    let k = s.name_index(req.name);
    if k >= 0 && req.password is Some {
        bcrypt_verdict(req.password->0, s.accounts[k].password)
    } else {
        None
    }
}

/// Handles a login from the address `ip`: does the outside work that the
/// login needs, and decides it.
///
/// The password check is a function of the password and the stored hash;
/// the hash and the token of a new account are drawn at random, so the
/// contract says that some hash, which the password check accepts, and
/// some token of the right form were used, or none could be had.
pub fn login(config: &Config, store: &mut Store, ip: u128, req: Login) -> (out: Reaction)
    requires
        old(store).wf(),
    ensures
        final(store).wf(),
        exists|hash: Option<Seq<char>>, token: Option<Seq<char>>|
            {
                &&& hash matches Some(h) ==> req@.password is Some && bcrypt_verdict(
                    req@.password->0,
                    h,
                ) == Some(true)
                &&& token matches Some(t) ==> is_token(t)
                &&& (Step { store: final(store)@, out: out@ }) == #[trigger] login_spec(
                    *config,
                    old(store)@,
                    ip,
                    req@,
                    login_verdict(old(store)@, req@),
                    hash,
                    token,
                )
            },
{
    let need = login_needs(config, store, &req);
    let mut verified: Option<bool> = None;
    let mut hash: Option<String> = None;
    let mut token: Option<String> = None;
    match need {
        Need::Nothing => {},
        Need::Check(k) => {
            match &req.password {
                Some(password) => {
                    verified = check_password(password.as_str(), store.account(k).password.as_str());
                    assert(req@.password == Some(password@));
                    assert(verified == login_verdict(store@, req@));
                },
                None => {},
            }
        },
        Need::Secrets => {
            match &req.password {
                Some(password) => {
                    hash = hash_password(password.as_str());
                    token = gen_token();
                },
                None => {},
            }
        },
    }
    let ghost s = store@;
    let ghost h = opt_text(hash);
    let ghost t = opt_text(token);
    proof {
        assert(login_spec(*config, s, ip, req@, verified, h, t) == login_spec(
            *config,
            s,
            ip,
            req@,
            login_verdict(s, req@),
            h,
            t,
        ));
    }
    login_step(config, store, ip, req, verified, hash, token)
}

/// Whether a request asks for a new password.
pub open spec fn changes_password(req: LoginUpdateView) -> bool {
    req.password_current is Some && req.password_new is Some
}

/// Whether a request leads to a new token: a new password brings one, and
/// one may be asked for.
pub open spec fn renews_token(req: LoginUpdateView) -> bool {
    changes_password(req) || req.reset_token
}

/// The error code of a change to one's own account that is refused before
/// any password is looked at.
///
/// A new name outside the configured length is refused with
/// `ERR_LIMIT_REACHED`; a new name that an account has, the requester's
/// included, with `ERR_LOGIN_INVALID`; a current password without a new
/// one, and a request that asks for nothing, with `ERR_MISSING_FIELD`.
pub open spec fn update_refusal(config: Config, s: StoreView, req: LoginUpdateView) -> Option<u8> {
    if req.name is Some && out_of_range(
        text_len(req.name->0),
        config.limit_user_name_min,
        config.limit_user_name_max,
    ) {
        Some(ERR_LIMIT_REACHED)
    } else if req.name is Some && s.name_index(req.name->0) >= 0 {
        Some(ERR_LOGIN_INVALID)
    } else if req.password_current is Some && req.password_new is None {
        Some(ERR_MISSING_FIELD)
    } else if req.name is None && !renews_token(req) {
        Some(ERR_MISSING_FIELD)
    } else {
        None
    }
}

/// The account at index `a` after a change that passed.
pub open spec fn updated_account(
    s: StoreView,
    a: int,
    req: LoginUpdateView,
    hash: Seq<char>,
    token: Seq<char>,
) -> AccountView {
    AccountView {
        user: UserView {
            name: match req.name {
                Some(name) => name,
                None => s.accounts[a].user.name,
            },
            ..s.accounts[a].user
        },
        password: if changes_password(req) {
            hash
        } else {
            s.accounts[a].password
        },
        token: if renews_token(req) {
            token
        } else {
            s.accounts[a].token
        },
        ..s.accounts[a]
    }
}

/// What a change to one's own account does, asked by the account at index
/// `a`.
///
/// `verified` is what the check of the current password said, `hash` the
/// hash of the new password and `token` a new token, each where the
/// request needs it.
///
/// After the refusals of `update_refusal`, a wrong current password is
/// refused with `ERR_LOGIN_INVALID`. Else the name, the password and the
/// token change together: the requester is told a new token, and a new
/// name is announced to everyone. A password check, a hash or a token that
/// could not be had is a failure inside the server.
pub open spec fn login_update_spec(
    config: Config,
    s: StoreView,
    a: int,
    req: LoginUpdateView,
    verified: Option<bool>,
    hash: Option<Seq<char>>,
    token: Option<Seq<char>>,
) -> Step {
    if update_refusal(config, s, req) is Some {
        refused(s, update_refusal(config, s, req)->0)
    } else if changes_password(req) && verified is None {
        failed(s)
    } else if changes_password(req) && verified == Some(false) {
        refused(s, ERR_LOGIN_INVALID)
    } else if changes_password(req) && hash is None {
        failed(s)
    } else if renews_token(req) && token is None {
        failed(s)
    } else {
        let account = updated_account(s, a, req, hash->0, token->0);
        Step {
            store: s.set_account(a, account),
            out: ReactionView {
                first: if renews_token(req) {
                    seq![
                        PacketView::LoginSuccess(
                            LoginSuccessView {
                                created: false,
                                id: account.user.id,
                                token: account.token,
                            },
                        ),
                    ]
                } else {
                    Seq::empty()
                },
                event: if req.name is Some {
                    Some(
                        EventView {
                            packet: PacketView::UserReceive(UserReceiveView { inner: account.user }),
                            audience: AudienceView::Everyone,
                        },
                    )
                } else {
                    None
                },
                ..silence()
            },
        }
    }
}

/// Tests a change to one's own account before any password is looked at.
pub fn update_refused(config: &Config, store: &Store, req: &LoginUpdate) -> (code: Option<u8>)
    ensures
        code == update_refusal(*config, store@, req@),
{
    match &req.name {
        Some(name) => {
            if text_out_of_range(
                name.as_str(),
                config.limit_user_name_min,
                config.limit_user_name_max,
            ) {
                return Some(ERR_LIMIT_REACHED);
            }
            if store.find_user_by_name(name.as_str()).is_some() {
                return Some(ERR_LOGIN_INVALID);
            }
        },
        None => {},
    }
    if req.password_current.is_some() && req.password_new.is_none() {
        return Some(ERR_MISSING_FIELD);
    }
    if req.name.is_none() && !(req.password_current.is_some() && req.password_new.is_some())
        && !req.reset_token {
        return Some(ERR_MISSING_FIELD);
    }
    None
}

/// Decides a change to one's own account once the outside work that it
/// needs is done.
pub fn login_update_step(
    config: &Config,
    store: &mut Store,
    a: usize,
    req: LoginUpdate,
    verified: Option<bool>,
    hash: Option<String>,
    token: Option<String>,
) -> (out: Reaction)
    requires
        old(store).wf(),
        a < old(store)@.accounts.len(),
    ensures
        final(store).wf(),
        (Step { store: final(store)@, out: out@ }) == login_update_spec(
            *config,
            old(store)@,
            a as int,
            req@,
            verified,
            opt_text(hash),
            opt_text(token),
        ),
{
    let ghost s = store@;
    let ghost r = req@;
    match update_refused(config, store, &req) {
        Some(code) => {
            return refuse(code);
        },
        None => {},
    }
    let changes = req.password_current.is_some() && req.password_new.is_some();
    let renews = changes || req.reset_token;
    if changes {
        match verified {
            None => {
                return fail();
            },
            Some(false) => {
                return refuse(ERR_LOGIN_INVALID);
            },
            Some(true) => {},
        }
    }
    if changes && hash.is_none() {
        return fail();
    }
    if renews && token.is_none() {
        return fail();
    }
    let ghost account = updated_account(s, a as int, r, opt_text(hash)->0, opt_text(token)->0);
    let renamed = req.name.is_some();
    match req.name {
        Some(name) => {
            store.set_name(a, name);
        },
        None => {},
    }
    if changes {
        match hash {
            Some(h) => {
                store.set_password(a, h);
            },
            None => {},
        }
    }
    let mut first: Vec<Packet> = Vec::new();
    if renews {
        match token {
            Some(t) => {
                let copy = t.clone();
                store.set_token(a, t);
                first.push(
                    Packet::LoginSuccess(
                        LoginSuccess { created: false, id: store.account(a).user.id, token: copy },
                    ),
                );
            },
            None => {},
        }
    }
    proof {
        assert(store@.accounts =~= s.accounts.update(a as int, account));
        assert(store@ == s.set_account(a as int, account));
    }
    let event = if renamed {
        Some(
            Event {
                packet: Packet::UserReceive(UserReceive { inner: store.account(a).user.clone() }),
                audience: Audience::Everyone,
            },
        )
    } else {
        None
    };
    let out = Reaction { first, event, last: Vec::new(), close: false, expel: None, login: None };
    proof {
        assert(out@.last =~= Seq::<PacketView>::empty());
        if renews_token(r) {
            assert(out@.first =~= seq![
                PacketView::LoginSuccess(
                    LoginSuccessView { created: false, id: account.user.id, token: account.token },
                ),
            ]);
        } else {
            assert(out@.first =~= Seq::<PacketView>::empty());
        }
    }
    out
}

/// What the check of the current password says of a change to one's own
/// account, where the request asks for a new password.
pub open spec fn update_verdict(s: StoreView, a: int, req: LoginUpdateView) -> Option<bool> {
    if changes_password(req) {
        bcrypt_verdict(req.password_current->0, s.accounts[a].password)
    } else {
        None
    }
}

/// Handles a change to one's own account: does the outside work that the
/// change needs, and decides it.
///
/// The check of the current password is a function of the password and
/// the stored hash; the new hash and the new token are drawn at random, so
/// the contract says that some hash, which the password check accepts for
/// the new password, and some token of the right form were used, or none
/// could be had.
pub fn login_update(config: &Config, store: &mut Store, a: usize, req: LoginUpdate) -> (out:
    Reaction)
    requires
        old(store).wf(),
        a < old(store)@.accounts.len(),
    ensures
        final(store).wf(),
        exists|hash: Option<Seq<char>>, token: Option<Seq<char>>|
            {
                &&& hash matches Some(h) ==> req@.password_new is Some && bcrypt_verdict(
                    req@.password_new->0,
                    h,
                ) == Some(true)
                &&& token matches Some(t) ==> is_token(t)
                &&& (Step { store: final(store)@, out: out@ }) == #[trigger] login_update_spec(
                    *config,
                    old(store)@,
                    a as int,
                    req@,
                    update_verdict(old(store)@, a as int, req@),
                    hash,
                    token,
                )
            },
{
    let mut verified: Option<bool> = None;
    let mut hash: Option<String> = None;
    let mut token: Option<String> = None;
    let ghost s = store@;
    if update_refused(config, store, &req).is_none() {
        let mut pass = true;
        match (&req.password_current, &req.password_new) {
            (Some(current), Some(fresh)) => {
                verified = check_password(current.as_str(), store.account(a).password.as_str());
                assert(req@.password_current == Some(current@));
                assert(req@.password_new == Some(fresh@));
                match verified {
                    Some(true) => {
                        hash = hash_password(fresh.as_str());
                        pass = hash.is_some();
                    },
                    _ => {
                        pass = false;
                    },
                }
            },
            _ => {
                pass = req.reset_token;
            },
        }
        if pass {
            token = gen_token();
        }
    }
    proof {
        let h = opt_text(hash);
        let t = opt_text(token);
        assert(login_update_spec(*config, s, a as int, req@, verified, h, t) == login_update_spec(
            *config,
            s,
            a as int,
            req@,
            update_verdict(s, a as int, req@),
            h,
            t,
        ));
    }
    login_update_step(config, store, a, req, verified, hash, token)
}

/// A banned account cannot log in: whatever the request holds, a login
/// under the name of a banned account is refused and changes nothing.
pub proof fn lemma_banned_cannot_log_in(
    config: Config,
    s: StoreView,
    ip: u128,
    req: LoginView,
    verified: Option<bool>,
    hash: Option<Seq<char>>,
    token: Option<Seq<char>>,
)
    requires
        s.name_index(req.name) >= 0,
        s.accounts[s.name_index(req.name)].user.ban,
    ensures
        login_spec(config, s, ip, req, verified, hash, token) == refused(s, ERR_LOGIN_BANNED),
{
}

/// Every login that succeeds notes the address: after it, the account that
/// the session is logged in as has the address of the peer as its last
/// one.
pub proof fn lemma_login_notes_address(
    config: Config,
    s: StoreView,
    ip: u128,
    req: LoginView,
    verified: Option<bool>,
    hash: Option<Seq<char>>,
    token: Option<Seq<char>>,
)
    ensures
        ({
            let step = login_spec(config, s, ip, req, verified, hash, token);
            step.out.login matches Some(id) ==> exists|i: int|
                0 <= i < step.store.accounts.len() && (#[trigger] step.store.accounts[i]).user.id
                    == id && step.store.accounts[i].last_ip == ip
        }),
{
    let step = login_spec(config, s, ip, req, verified, hash, token);
    let k = s.name_index(req.name);
    lemma_first_match(s.accounts, |a: AccountView| same_name(a.user.name, req.name));
    if step.out.login is Some {
        if k >= 0 {
            assert(step.store.accounts[k].last_ip == ip);
        } else {
            assert(step.store.accounts[s.accounts.len() as int].last_ip == ip);
        }
    }
}

/// Only a login that succeeds logs a session in: a login that is refused,
/// or that fails, leaves the state as it was.
pub proof fn lemma_failed_login_changes_nothing(
    config: Config,
    s: StoreView,
    ip: u128,
    req: LoginView,
    verified: Option<bool>,
    hash: Option<Seq<char>>,
    token: Option<Seq<char>>,
)
    ensures
        ({
            let step = login_spec(config, s, ip, req, verified, hash, token);
            step.out.login is None ==> step.store == s
        }),
{
}

/// A login of the wrong kind is told so only when its password or token
/// is right: a wrong password or token is refused with `ERR_LOGIN_INVALID`
/// whatever the kind of the account.
pub proof fn lemma_wrong_credentials_are_invalid(
    config: Config,
    s: StoreView,
    ip: u128,
    req: LoginView,
    verified: Option<bool>,
    hash: Option<Seq<char>>,
    token: Option<Seq<char>>,
)
    requires
        s.name_index(req.name) >= 0,
        !s.accounts[s.name_index(req.name)].user.ban,
        match req.password {
            Some(_) => verified == Some(false),
            None => req.token is Some && req.token->0 != s.accounts[s.name_index(req.name)].token,
        },
    ensures
        login_spec(config, s, ip, req, verified, hash, token) == refused(s, ERR_LOGIN_INVALID),
{
}

} // verus!
