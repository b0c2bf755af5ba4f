use chat_core::auth::{login_needs, login_step, login_update_step, update_refused, Need};
use chat_core::config::Config;
use chat_core::consts::{
    ERR_LIMIT_REACHED, ERR_LOGIN_BANNED, ERR_LOGIN_BOT, ERR_LOGIN_INVALID, ERR_MISSING_FIELD,
};
use chat_core::engine::{classify, dispatch};
use chat_core::packet::{Login, LoginSuccess, LoginUpdate, Packet, Typing, UserReceive};
use chat_core::server::Audience;
use chat_core::store::Store;
use chat_core::types::User;

fn request(name: &str, password: Option<&str>, token: Option<&str>) -> Login {
    Login {
        bot: false,
        name: name.to_string(),
        password: password.map(|p| p.to_string()),
        token: token.map(|t| t.to_string()),
    }
}

fn store_with_alice() -> Store {
    let mut store = Store::new();
    let out = login_step(
        &Config::standard(),
        &mut store,
        5,
        request("alice", Some("pw"), None),
        None,
        Some("HASH".to_string()),
        Some("TOKEN".to_string()),
    );
    assert_eq!(out.login, Some(1));
    store
}

#[test]
fn a_login_for_a_new_name_creates_the_account() {
    let config = Config::standard();
    let mut store = Store::new();
    let req = request("alice", Some("pw"), None);
    assert_eq!(login_needs(&config, &store, &req), Need::Secrets);
    let out = login_step(
        &config,
        &mut store,
        5,
        req,
        None,
        Some("HASH".to_string()),
        Some("TOKEN".to_string()),
    );
    assert_eq!(
        out.first,
        vec![Packet::LoginSuccess(LoginSuccess { created: true, id: 1, token: "TOKEN".to_string() })]
    );
    let event = out.event.unwrap();
    assert_eq!(
        event.packet,
        Packet::UserReceive(UserReceive {
            inner: User { attributes: vec![], ban: false, bot: false, id: 1, name: "alice".to_string() }
        })
    );
    assert!(matches!(event.audience, Audience::Everyone));
    assert_eq!(out.last.len(), 3);
    assert_eq!(out.login, Some(1));
    assert!(!out.close);
    assert_eq!(out.expel, None);
    let account = &store.accounts()[0];
    assert_eq!(account.password, "HASH");
    assert_eq!(account.token, "TOKEN");
    assert_eq!(account.last_ip, 5);
    assert_eq!(store.counters().1, 2);
}

#[test]
fn a_login_without_the_secrets_that_it_needs_fails_inside() {
    let config = Config::standard();
    let mut store = Store::new();
    let out = login_step(&config, &mut store, 5, request("alice", Some("pw"), None), None, None, None);
    assert_eq!(out.first, vec![Packet::Close]);
    assert!(out.close);
    assert_eq!(out.login, None);
    assert!(store.accounts().is_empty());
    let mut store = store_with_alice();
    let out = login_step(&config, &mut store, 6, request("alice", Some("pw"), None), None, None, None);
    assert_eq!(out.first, vec![Packet::Close]);
    assert!(out.close);
}

#[test]
fn a_login_for_an_account_goes_by_the_verdict_or_the_token() {
    let config = Config::standard();
    let mut store = store_with_alice();
    let with_password = request("Alice", Some("pw"), None);
    assert_eq!(login_needs(&config, &store, &with_password), Need::Check(0));
    let out = login_step(&config, &mut store, 6, with_password, Some(false), None, None);
    assert_eq!(out.first, vec![Packet::Error(ERR_LOGIN_INVALID)]);
    assert_eq!(store.accounts()[0].last_ip, 5);
    let out = login_step(&config, &mut store, 6, request("alice", Some("pw"), None), Some(true), None, None);
    assert_eq!(
        out.first,
        vec![Packet::LoginSuccess(LoginSuccess { created: false, id: 1, token: "TOKEN".to_string() })]
    );
    assert!(out.event.is_none());
    assert_eq!(out.login, Some(1));
    assert_eq!(store.accounts()[0].last_ip, 6);
    let by_token = request("alice", None, Some("TOKEN"));
    assert_eq!(login_needs(&config, &store, &by_token), Need::Nothing);
    let out = login_step(&config, &mut store, 7, by_token, None, None, None);
    assert_eq!(out.login, Some(1));
    assert_eq!(store.accounts()[0].last_ip, 7);
    let out = login_step(&config, &mut store, 8, request("alice", None, Some("token")), None, None, None);
    assert_eq!(out.first, vec![Packet::Error(ERR_LOGIN_INVALID)]);
    let out = login_step(&config, &mut store, 8, request("alice", None, None), None, None, None);
    assert_eq!(out.first, vec![Packet::Error(ERR_MISSING_FIELD)]);
    let mut bot = request("alice", None, Some("TOKEN"));
    bot.bot = true;
    assert_eq!(login_needs(&config, &store, &bot), Need::Nothing);
    let out = login_step(&config, &mut store, 8, bot, None, None, None);
    assert_eq!(out.first, vec![Packet::Error(ERR_LOGIN_BOT)]);
    let mut bot = request("alice", None, Some("stale"));
    bot.bot = true;
    let out = login_step(&config, &mut store, 8, bot, None, None, None);
    assert_eq!(out.first, vec![Packet::Error(ERR_LOGIN_INVALID)]);
    let mut bot = request("alice", Some("pw"), None);
    bot.bot = true;
    assert_eq!(login_needs(&config, &store, &bot), Need::Check(0));
    let out = login_step(&config, &mut store, 8, bot.clone(), Some(false), None, None);
    assert_eq!(out.first, vec![Packet::Error(ERR_LOGIN_INVALID)]);
    let out = login_step(&config, &mut store, 8, bot.clone(), Some(true), None, None);
    assert_eq!(out.first, vec![Packet::Error(ERR_LOGIN_BOT)]);
    assert_eq!(out.login, None);
    let mut bot = request("alice", None, None);
    bot.bot = true;
    let out = login_step(&config, &mut store, 8, bot, None, None, None);
    assert_eq!(out.first, vec![Packet::Error(ERR_MISSING_FIELD)]);
    assert_eq!(store.accounts()[0].last_ip, 7);
    store.set_ban(0, true);
    let out = login_step(&config, &mut store, 8, request("alice", None, Some("TOKEN")), None, None, None);
    assert_eq!(out.first, vec![Packet::Error(ERR_LOGIN_BANNED)]);
    assert_eq!(store.accounts()[0].last_ip, 7);
}

#[test]
fn a_login_for_a_new_name_needs_a_password_and_a_name_of_the_right_length() {
    let config = Config::standard();
    let mut store = Store::new();
    let without = request("alice", None, Some("TOKEN"));
    assert_eq!(login_needs(&config, &store, &without), Need::Nothing);
    let out = login_step(&config, &mut store, 5, without, None, None, None);
    assert_eq!(out.first, vec![Packet::Error(ERR_LOGIN_INVALID)]);
    let long = "é".repeat(17);
    let req = request(&long, Some("pw"), None);
    assert_eq!(login_needs(&config, &store, &req), Need::Nothing);
    let out = login_step(&config, &mut store, 5, req, None, Some("H".to_string()), Some("T".to_string()));
    assert_eq!(out.first, vec![Packet::Error(ERR_LIMIT_REACHED)]);
    let fits = "é".repeat(16);
    let out = login_step(
        &config,
        &mut store,
        5,
        request(&fits, Some("pw"), None),
        None,
        Some("H".to_string()),
        Some("T".to_string()),
    );
    assert_eq!(out.login, Some(1));
}

fn update(name: Option<&str>, current: Option<&str>, new: Option<&str>, reset_token: bool) -> LoginUpdate {
    LoginUpdate {
        name: name.map(|s| s.to_string()),
        password_current: current.map(|s| s.to_string()),
        password_new: new.map(|s| s.to_string()),
        reset_token,
    }
}

#[test]
fn changes_to_the_own_account_step_by_step() {
    let config = Config::standard();
    let mut store = store_with_alice();
    assert_eq!(update_refused(&config, &store, &update(None, None, None, false)), Some(ERR_MISSING_FIELD));
    assert_eq!(update_refused(&config, &store, &update(Some("ALICE"), None, None, false)), Some(ERR_LOGIN_INVALID));
    assert_eq!(update_refused(&config, &store, &update(None, Some("a"), None, true)), Some(ERR_MISSING_FIELD));
    assert_eq!(update_refused(&config, &store, &update(None, None, Some("a"), true)), None);
    assert_eq!(update_refused(&config, &store, &update(Some("bob"), None, None, false)), None);

    let change = update(Some("bob"), Some("pw"), Some("new"), false);
    let out = login_update_step(&config, &mut store, 0, change.clone(), Some(false), None, None);
    assert_eq!(out.first, vec![Packet::Error(ERR_LOGIN_INVALID)]);
    assert_eq!(store.accounts()[0].user.name, "alice");
    let out = login_update_step(&config, &mut store, 0, change.clone(), None, None, None);
    assert_eq!(out.first, vec![Packet::Close]);
    assert!(out.close);
    let out = login_update_step(&config, &mut store, 0, change.clone(), Some(true), Some("H2".to_string()), None);
    assert_eq!(out.first, vec![Packet::Close]);
    assert_eq!(store.accounts()[0].password, "HASH");
    let out = login_update_step(
        &config,
        &mut store,
        0,
        change,
        Some(true),
        Some("H2".to_string()),
        Some("T2".to_string()),
    );
    assert_eq!(
        out.first,
        vec![Packet::LoginSuccess(LoginSuccess { created: false, id: 1, token: "T2".to_string() })]
    );
    assert!(matches!(
        out.event.unwrap().packet,
        Packet::UserReceive(UserReceive { inner }) if inner.name == "bob" && inner.id == 1
    ));
    let account = &store.accounts()[0];
    assert_eq!(account.user.name, "bob");
    assert_eq!(account.password, "H2");
    assert_eq!(account.token, "T2");

    let out = login_update_step(&config, &mut store, 0, update(Some("carol"), None, None, false), None, None, None);
    assert!(out.first.is_empty());
    assert!(out.event.is_some());
    assert_eq!(store.accounts()[0].token, "T2");
    let out = login_update_step(
        &config,
        &mut store,
        0,
        update(None, None, None, true),
        None,
        None,
        Some("T3".to_string()),
    );
    assert_eq!(
        out.first,
        vec![Packet::LoginSuccess(LoginSuccess { created: false, id: 1, token: "T3".to_string() })]
    );
    assert!(out.event.is_none());
    assert_eq!(store.accounts()[0].password, "H2");
}

#[test]
fn the_classes_of_the_packets() {
    assert_eq!(classify(&Packet::Typing(Typing { channel: 1 })), None);
    assert_eq!(classify(&Packet::Close), None);
    assert_eq!(classify(&Packet::Login(request("a", None, None))), None);
    assert_eq!(classify(&Packet::LoginUpdate(update(Some("a"), None, None, false))), Some(false));
    assert_eq!(classify(&Packet::LoginUpdate(update(None, Some("a"), None, false))), Some(false));
    assert_eq!(classify(&Packet::LoginUpdate(update(None, Some("a"), Some("b"), false))), Some(true));
    assert_eq!(classify(&Packet::LoginUpdate(update(None, None, None, true))), Some(true));
    assert_eq!(
        classify(&Packet::MessageDelete(chat_core::packet::MessageDelete { channel: 1, id: 1 })),
        Some(false)
    );
}

#[test]
fn a_packet_that_is_no_request_ends_the_session() {
    let config = Config::standard();
    let mut store = store_with_alice();
    let out = dispatch(&config, &mut store, 0, Packet::RateLimited(3), 0);
    assert!(out.close);
    assert!(out.first.is_empty());
    assert!(out.event.is_none());
}
