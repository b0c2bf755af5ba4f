use chat_core::config::Config;
use chat_core::consts::{
    ERR_ATTR_INVALID_POS, ERR_ATTR_LOCKED_NAME, ERR_LIMIT_REACHED, ERR_LOGIN_BANNED, ERR_LOGIN_BOT,
    ERR_LOGIN_INVALID, ERR_MAX_CONN_PER_IP, ERR_MISSING_FIELD, ERR_MISSING_PERMISSION,
    ERR_UNKNOWN_ATTRIBUTE, ERR_UNKNOWN_CHANNEL, ERR_UNKNOWN_MESSAGE, ERR_UNKNOWN_USER,
    PERM_ASSIGN_ATTRIBUTES, PERM_BAN, PERM_MANAGE_CHANNELS, PERM_READ, PERM_WRITE,
};
use chat_core::engine::{Outcome, Server};
use chat_core::packet::{
    AttributeCreate, AttributeDelete, AttributeUpdate, ChannelCreate, ChannelDelete, ChannelUpdate,
    Login, LoginUpdate, MessageCreate, MessageDelete, MessageList, MessageUpdate, Packet, Typing,
    UserUpdate,
};
use chat_core::store::Store;
use chat_core::types::{Attribute, Channel};
use std::collections::HashMap;

const IP_A: u128 = 0x7f00_0001;
const IP_B: u128 = 0x0a00_0002;
const SECOND: u128 = 1_000_000_000;

fn roomy_config() -> Config {
    let mut config = Config::standard();
    config.limit_requests_cheap_per_10_seconds = 255;
    config.limit_requests_expensive_per_5_minutes = 255;
    config
}

fn server() -> Server {
    Server::new(roomy_config(), Store::new())
}

fn login(name: &str, password: Option<&str>, token: Option<&str>) -> Packet {
    Packet::Login(Login {
        bot: false,
        name: name.to_string(),
        password: password.map(|p| p.to_string()),
        token: token.map(|t| t.to_string()),
    })
}

fn join(server: &mut Server, ip: u128, name: &str) -> (usize, usize, String) {
    let conn = server.accept(ip).unwrap();
    let out = server.handle_at(conn, login(name, Some("pw"), None), 0, 100);
    match &out.first[0] {
        Packet::LoginSuccess(success) => (conn, success.id, success.token.clone()),
        other => panic!("no login: {:?}", other),
    }
}

fn error_of(out: &Outcome) -> u8 {
    assert!(out.event.is_none());
    assert!(out.recipients.is_empty());
    assert!(out.closed.is_empty());
    assert_eq!(out.first.len(), 1);
    match out.first[0] {
        Packet::Error(code) => code,
        _ => panic!("no error: {:?}", out.first[0]),
    }
}

fn role_create(name: &str, pos: usize, allow: u8) -> Packet {
    Packet::AttributeCreate(AttributeCreate {
        allow,
        deny: 0,
        name: name.to_string(),
        pos,
        unassignable: false,
    })
}

fn positions(server: &Server) -> Vec<(String, usize)> {
    server.store().roles().iter().map(|r| (r.name.clone(), r.pos)).collect()
}

#[test]
fn login_creates_an_account_and_the_token_logs_in_again() {
    let mut server = server();
    let conn = server.accept(IP_A).unwrap();
    assert_eq!(conn, 0);
    let out = server.handle_at(conn, login("alice", Some("pw"), None), 0, 100);
    let token = match &out.first[0] {
        Packet::LoginSuccess(success) => {
            assert_eq!(success.id, 1);
            assert!(success.created);
            assert_eq!(success.token.len(), 64);
            assert!(success.token.chars().all(|c| c.is_ascii_alphanumeric()));
            success.token.clone()
        }
        other => panic!("no login: {:?}", other),
    };
    assert_eq!(out.first.len(), 1);
    match &out.event {
        Some(Packet::UserReceive(event)) => {
            assert_eq!(event.inner.id, 1);
            assert_eq!(event.inner.name, "alice");
            assert!(!event.inner.ban);
            assert!(!event.inner.bot);
            assert!(event.inner.attributes.is_empty());
        }
        other => panic!("no event: {:?}", other),
    }
    assert_eq!(out.recipients, vec![0]);
    assert_eq!(out.last.len(), 3);
    assert!(matches!(&out.last[0], Packet::AttributeReceive(r) if r.inner.id == 1 && !r.new));
    assert!(matches!(&out.last[1], Packet::AttributeReceive(r) if r.inner.id == 2 && !r.new));
    assert!(matches!(&out.last[2], Packet::UserReceive(u) if u.inner.id == 1));
    assert!(out.closed.is_empty());
    assert_eq!(server.store().accounts()[0].last_ip, IP_A);

    let second = server.accept(IP_B).unwrap();
    assert_eq!(second, 1);
    let out = server.handle_at(second, login("alice", None, Some(&token)), SECOND, 101);
    match &out.first[0] {
        Packet::LoginSuccess(success) => {
            assert_eq!(success.id, 1);
            assert!(!success.created);
            assert_eq!(success.token, token);
        }
        other => panic!("no login: {:?}", other),
    }
    assert!(out.event.is_none());
    assert_eq!(out.last.len(), 3);
    assert_eq!(server.store().accounts()[0].last_ip, IP_B);
    assert_eq!(server.registry().sessions()[1].id, Some(1));
}

#[test]
fn login_with_the_password_of_the_account_logs_in() {
    let mut server = server();
    let (_, id, token) = join(&mut server, IP_A, "alice");
    let conn = server.accept(IP_A).unwrap();
    let out = server.handle_at(conn, login("ALICE", Some("pw"), None), SECOND, 101);
    match &out.first[0] {
        Packet::LoginSuccess(success) => {
            assert_eq!(success.id, id);
            assert!(!success.created);
            assert_eq!(success.token, token);
        }
        other => panic!("no login: {:?}", other),
    }
    let conn = server.accept(IP_A).unwrap();
    let out = server.handle_at(conn, login("alice", Some("wrong"), None), 2 * SECOND, 102);
    assert_eq!(error_of(&out), ERR_LOGIN_INVALID);
    assert_eq!(server.registry().sessions()[2].id, None);
}

#[test]
fn login_errors() {
    let mut server = server();
    let (_, _, _) = join(&mut server, IP_A, "alice");
    let conn = server.accept(IP_A).unwrap();
    let out = server.handle_at(conn, login("alice", None, Some("stale")), SECOND, 101);
    assert_eq!(error_of(&out), ERR_LOGIN_INVALID);
    let out = server.handle_at(conn, login("alice", None, None), SECOND, 101);
    assert_eq!(error_of(&out), ERR_MISSING_FIELD);
    let out = server.handle_at(conn, login("nobody", None, Some("token")), SECOND, 101);
    assert_eq!(error_of(&out), ERR_LOGIN_INVALID);
    let out = server.handle_at(conn, login("", Some("pw"), None), SECOND, 101);
    assert_eq!(error_of(&out), ERR_LIMIT_REACHED);
    let long = "a".repeat(33);
    let out = server.handle_at(conn, login(&long, Some("pw"), None), SECOND, 101);
    assert_eq!(error_of(&out), ERR_LIMIT_REACHED);
    let bot = Packet::Login(Login {
        bot: true,
        name: "alice".to_string(),
        password: Some("pw".to_string()),
        token: None,
    });
    let out = server.handle_at(conn, bot, SECOND, 101);
    assert_eq!(error_of(&out), ERR_LOGIN_BOT);
    let wrong_bot = Packet::Login(Login {
        bot: true,
        name: "alice".to_string(),
        password: Some("wrong".to_string()),
        token: None,
    });
    let out = server.handle_at(conn, wrong_bot, SECOND, 101);
    assert_eq!(error_of(&out), ERR_LOGIN_INVALID);
    assert_eq!(server.store().accounts().len(), 1);
}

#[test]
fn role_create_shifts_the_roles_behind_it() {
    let mut server = server();
    let (conn, _, _) = join(&mut server, IP_A, "alice");
    let out = server.handle_at(
        conn,
        role_create("mod", 1, PERM_READ | PERM_WRITE | PERM_MANAGE_CHANNELS),
        SECOND,
        101,
    );
    match &out.event {
        Some(Packet::AttributeReceive(event)) => {
            assert_eq!(
                event.inner,
                Attribute {
                    allow: PERM_READ | PERM_WRITE | PERM_MANAGE_CHANNELS,
                    deny: 0,
                    id: 3,
                    name: "mod".to_string(),
                    pos: 1,
                    unassignable: false
                }
            );
            assert!(event.new);
        }
        other => panic!("no event: {:?}", other),
    }
    assert!(out.first.is_empty());
    assert_eq!(out.recipients, vec![conn]);
    let out = server.handle_at(conn, role_create("x", 1, 0), SECOND, 101);
    assert!(matches!(&out.event, Some(Packet::AttributeReceive(e)) if e.inner.id == 4 && e.inner.pos == 1));
    assert_eq!(
        positions(&server),
        vec![
            ("@humans".to_string(), 0),
            ("@bots".to_string(), 0),
            ("x".to_string(), 1),
            ("mod".to_string(), 2)
        ]
    );
}

#[test]
fn role_positions_stay_dense_through_create_update_delete() {
    let mut server = server();
    let (conn, _, _) = join(&mut server, IP_A, "alice");
    for (name, pos) in [("a", 1), ("b", 2), ("c", 1), ("d", 4), ("e", 3)] {
        let out = server.handle_at(conn, role_create(name, pos, 0), SECOND, 101);
        assert!(out.event.is_some());
    }
    let order = |server: &Server| -> Vec<String> {
        let roles = server.store().roles();
        for (i, role) in roles.iter().enumerate().skip(2) {
            assert_eq!(role.pos, i - 1);
        }
        roles.iter().skip(2).map(|r| r.name.clone()).collect()
    };
    assert_eq!(order(&server), vec!["c", "a", "e", "b", "d"]);
    let out = server.handle_at(conn, role_create("f", 7, 0), SECOND, 101);
    assert_eq!(error_of(&out), ERR_ATTR_INVALID_POS);
    let out = server.handle_at(conn, role_create("f", 0, 0), SECOND, 101);
    assert_eq!(error_of(&out), ERR_ATTR_INVALID_POS);
    let a = server.store().roles().iter().find(|r| r.name == "a").unwrap().clone();
    let moved = Attribute { pos: 5, allow: 9, ..a.clone() };
    let out = server.handle_at(
        conn,
        Packet::AttributeUpdate(AttributeUpdate { inner: moved.clone() }),
        SECOND,
        101,
    );
    assert!(matches!(&out.event, Some(Packet::AttributeReceive(e)) if e.inner == moved && e.new));
    assert_eq!(order(&server), vec!["c", "e", "b", "d", "a"]);
    let back = Attribute { pos: 1, ..moved };
    let out = server.handle_at(conn, Packet::AttributeUpdate(AttributeUpdate { inner: back }), SECOND, 101);
    assert!(out.event.is_some());
    assert_eq!(order(&server), vec!["a", "c", "e", "b", "d"]);
    let e = server.store().roles().iter().find(|r| r.name == "e").unwrap().clone();
    let out = server.handle_at(conn, Packet::AttributeDelete(AttributeDelete { id: e.id }), SECOND, 101);
    assert!(matches!(&out.event, Some(Packet::AttributeDeleteReceive(d)) if d.inner == e));
    assert_eq!(order(&server), vec!["a", "c", "b", "d"]);
    let out = server.handle_at(conn, Packet::AttributeDelete(AttributeDelete { id: e.id }), SECOND, 101);
    assert_eq!(error_of(&out), ERR_UNKNOWN_ATTRIBUTE);
    let out = server.handle_at(conn, Packet::AttributeDelete(AttributeDelete { id: 1 }), SECOND, 101);
    assert_eq!(error_of(&out), ERR_ATTR_INVALID_POS);
    let beyond = Attribute { pos: 5, ..a };
    let out = server.handle_at(conn, Packet::AttributeUpdate(AttributeUpdate { inner: beyond }), SECOND, 101);
    assert_eq!(error_of(&out), ERR_ATTR_INVALID_POS);
}

#[test]
fn system_roles_keep_their_name_and_their_place() {
    let mut server = server();
    let (conn, _, _) = join(&mut server, IP_A, "alice");
    let humans = server.store().roles()[0].clone();
    let renamed = Attribute { name: "people".to_string(), ..humans.clone() };
    let out = server.handle_at(conn, Packet::AttributeUpdate(AttributeUpdate { inner: renamed }), SECOND, 101);
    assert_eq!(error_of(&out), ERR_ATTR_LOCKED_NAME);
    server.handle_at(conn, role_create("a", 1, 0), SECOND, 101);
    let moved = Attribute { pos: 1, ..humans.clone() };
    let out = server.handle_at(conn, Packet::AttributeUpdate(AttributeUpdate { inner: moved }), SECOND, 101);
    assert_eq!(error_of(&out), ERR_ATTR_INVALID_POS);
    let changed = Attribute { allow: PERM_READ, unassignable: false, ..humans };
    let out = server.handle_at(conn, Packet::AttributeUpdate(AttributeUpdate { inner: changed }), SECOND, 101);
    match &out.event {
        Some(Packet::AttributeReceive(event)) => {
            assert_eq!(event.inner.allow, PERM_READ);
            assert!(event.inner.unassignable);
            assert_eq!(event.inner.pos, 0);
        }
        other => panic!("no event: {:?}", other),
    }
    assert_eq!(server.store().roles()[0].allow, PERM_READ);
    assert!(server.store().roles()[0].unassignable);
}

#[test]
fn channel_and_message_are_broadcast_to_the_readers() {
    let mut server = server();
    let (conn, _, _) = join(&mut server, IP_A, "alice");
    let idle = server.accept(IP_B).unwrap();
    let out = server.handle_at(
        conn,
        Packet::ChannelCreate(ChannelCreate { name: "general".to_string(), overrides: HashMap::new() }),
        SECOND,
        101,
    );
    match &out.event {
        Some(Packet::ChannelReceive(event)) => {
            assert_eq!(
                event.inner,
                Channel { id: 1, name: "general".to_string(), overrides: HashMap::new() }
            );
        }
        other => panic!("no event: {:?}", other),
    }
    assert_eq!(out.recipients, vec![conn]);
    let out = server.handle_at(
        conn,
        Packet::MessageCreate(MessageCreate { channel: 1, text: b"hi".to_vec() }),
        SECOND,
        555,
    );
    match &out.event {
        Some(Packet::MessageReceive(event)) => {
            assert!(event.new);
            assert_eq!(event.inner.author, 1);
            assert_eq!(event.inner.channel, 1);
            assert_eq!(event.inner.id, 1);
            assert_eq!(event.inner.text, b"hi");
            assert_eq!(event.inner.timestamp, 555);
            assert_eq!(event.inner.timestamp_edit, None);
        }
        other => panic!("no event: {:?}", other),
    }
    assert!(out.first.is_empty());
    assert_eq!(out.recipients, vec![conn]);
    assert!(!out.recipients.contains(&idle));
}

#[test]
fn the_second_connection_from_an_address_is_refused_at_the_limit() {
    let mut config = roomy_config();
    config.limit_connections_per_ip = 1;
    let mut server = Server::new(config, Store::new());
    assert_eq!(server.accept(IP_A), Ok(0));
    assert_eq!(server.accept(IP_A), Err(Some(ERR_MAX_CONN_PER_IP)));
    assert_eq!(server.registry().sessions().len(), 1);
    assert_eq!(server.accept(IP_B), Ok(1));
    server.disconnect(0);
    assert_eq!(server.accept(IP_A), Ok(2));
    assert_eq!(server.accept(IP_A), Err(Some(ERR_MAX_CONN_PER_IP)));
}

#[test]
fn a_user_without_roles_may_not_create_a_channel() {
    let mut server = server();
    join(&mut server, IP_A, "alice");
    let (conn, id, _) = join(&mut server, IP_B, "bob");
    assert_eq!(id, 2);
    let out = server.handle_at(
        conn,
        Packet::ChannelCreate(ChannelCreate { name: "general".to_string(), overrides: HashMap::new() }),
        SECOND,
        101,
    );
    assert_eq!(error_of(&out), ERR_MISSING_PERMISSION);
    assert!(server.store().channels().is_empty());
}

#[test]
fn a_ban_closes_the_sessions_and_bars_the_address() {
    let mut server = server();
    let (owner, _, _) = join(&mut server, IP_A, "alice");
    let (first, id, token) = join(&mut server, IP_B, "bob");
    let second = server.accept(IP_B).unwrap();
    server.handle_at(second, login("bob", None, Some(&token)), SECOND, 101);
    assert_eq!(server.registry().sessions().len(), 3);
    let out = server.handle_at(
        owner,
        Packet::UserUpdate(UserUpdate { attributes: None, ban: Some(true), id }),
        SECOND,
        101,
    );
    assert!(matches!(&out.event, Some(Packet::UserReceive(e)) if e.inner.id == id && e.inner.ban));
    assert_eq!(out.closed, vec![first, second]);
    assert_eq!(out.recipients, vec![owner]);
    assert_eq!(server.registry().sessions().len(), 1);
    assert_eq!(server.accept(IP_B), Err(Some(ERR_LOGIN_BANNED)));
    assert_eq!(server.registry().sessions().len(), 1);
    let conn = server.accept(IP_A).unwrap();
    let out = server.handle_at(conn, login("bob", None, Some(&token)), 2 * SECOND, 102);
    assert_eq!(error_of(&out), ERR_LOGIN_BANNED);
    let out = server.handle_at(first, Packet::Typing(Typing { channel: 1 }), 2 * SECOND, 102);
    assert!(out.first.is_empty() && out.event.is_none() && out.closed.is_empty());
}

#[test]
fn ban_rules() {
    let mut server = server();
    let (owner, _, _) = join(&mut server, IP_A, "alice");
    let (conn, id, _) = join(&mut server, IP_B, "bob");
    let ban = |id: usize| Packet::UserUpdate(UserUpdate { attributes: None, ban: Some(true), id });
    assert_eq!(error_of(&server.handle_at(owner, ban(1), SECOND, 101)), ERR_MISSING_PERMISSION);
    assert_eq!(error_of(&server.handle_at(conn, ban(1), SECOND, 101)), ERR_MISSING_PERMISSION);
    assert_eq!(error_of(&server.handle_at(conn, ban(id), SECOND, 101)), ERR_MISSING_PERMISSION);
    assert_eq!(error_of(&server.handle_at(owner, ban(9), SECOND, 101)), ERR_UNKNOWN_USER);
    let empty = Packet::UserUpdate(UserUpdate { attributes: None, ban: None, id });
    assert_eq!(error_of(&server.handle_at(owner, empty, SECOND, 101)), ERR_MISSING_FIELD);
}

#[test]
fn packets_out_of_place_close_the_session() {
    let mut server = server();
    let fresh = server.accept(IP_A).unwrap();
    let out = server.handle_at(fresh, Packet::Typing(Typing { channel: 1 }), 0, 100);
    assert!(out.first.is_empty());
    assert_eq!(out.closed, vec![fresh]);
    assert!(server.registry().sessions().is_empty());
    let (conn, _, token) = join(&mut server, IP_A, "alice");
    let out = server.handle_at(conn, login("alice", None, Some(&token)), SECOND, 101);
    assert!(out.first.is_empty());
    assert_eq!(out.closed, vec![conn]);
    let (conn, _, _) = (server.accept(IP_A).unwrap(), 0, 0);
    server.handle_at(conn, login("alice", None, Some(&token)), SECOND, 101);
    let out = server.handle_at(conn, Packet::Error(3), SECOND, 101);
    assert_eq!(out.closed, vec![conn]);
    let conn = server.accept(IP_A).unwrap();
    server.handle_at(conn, login("alice", None, Some(&token)), SECOND, 101);
    let out = server.handle_at(conn, Packet::Close, SECOND, 101);
    assert!(out.first.is_empty());
    assert_eq!(out.closed, vec![conn]);
    assert!(server.registry().sessions().is_empty());
}

#[test]
fn requests_beyond_the_quota_are_told_to_wait_and_do_nothing() {
    let mut server = Server::new(Config::standard(), Store::new());
    let (conn, _, _) = join(&mut server, IP_A, "alice");
    for i in 0..7 {
        let out = server.handle_at(conn, role_create(&format!("r{}", i), 1, 0), SECOND, 101);
        assert!(out.event.is_some());
    }
    let out = server.handle_at(conn, role_create("late", 1, 0), 2 * SECOND, 101);
    assert_eq!(out.first, vec![Packet::RateLimited(9)]);
    assert!(out.event.is_none());
    assert_eq!(server.store().roles().len(), 9);
    let out = server.handle_at(conn, Packet::Typing(Typing { channel: 9 }), 2 * SECOND, 101);
    assert_eq!(error_of(&out), ERR_UNKNOWN_CHANNEL);
    let out = server.handle_at(conn, role_create("late", 1, 0), 11 * SECOND - 1, 101);
    assert_eq!(out.first, vec![Packet::RateLimited(1)]);
    let out = server.handle_at(conn, role_create("late", 1, 0), 11 * SECOND, 101);
    assert!(out.event.is_some());
}

#[test]
fn message_update_delete_and_list() {
    let mut server = server();
    let (owner, _, _) = join(&mut server, IP_A, "alice");
    let (conn, bob, _) = join(&mut server, IP_B, "bob");
    let channel = |name: &str| Packet::ChannelCreate(ChannelCreate {
        name: name.to_string(),
        overrides: HashMap::new(),
    });
    server.handle_at(owner, channel("one"), SECOND, 101);
    server.handle_at(owner, channel("two"), SECOND, 101);
    for (i, text) in ["a", "b", "c", "d"].iter().enumerate() {
        let out = server.handle_at(
            conn,
            Packet::MessageCreate(MessageCreate { channel: 1, text: text.as_bytes().to_vec() }),
            SECOND,
            200 + i as i64,
        );
        assert_eq!(out.recipients, vec![owner, conn]);
    }
    let out = server.handle_at(
        conn,
        Packet::MessageCreate(MessageCreate { channel: 1, text: vec![] }),
        SECOND,
        300,
    );
    assert_eq!(error_of(&out), ERR_LIMIT_REACHED);
    let out = server.handle_at(
        conn,
        Packet::MessageCreate(MessageCreate { channel: 7, text: b"x".to_vec() }),
        SECOND,
        300,
    );
    assert_eq!(error_of(&out), ERR_UNKNOWN_CHANNEL);
    let list = |after, before, limit| Packet::MessageList(MessageList { after, before, channel: 1, limit });
    let texts = |out: &Outcome| -> Vec<Vec<u8>> {
        out.first
            .iter()
            .map(|p| match p {
                Packet::MessageReceive(m) => {
                    assert!(!m.new);
                    m.inner.text.clone()
                }
                other => panic!("no message: {:?}", other),
            })
            .collect()
    };
    let out = server.handle_at(conn, list(None, None, 2), SECOND, 300);
    assert_eq!(texts(&out), vec![b"c".to_vec(), b"d".to_vec()]);
    let out = server.handle_at(conn, list(Some(2), None, 64), SECOND, 300);
    assert_eq!(texts(&out), vec![b"b".to_vec(), b"c".to_vec(), b"d".to_vec()]);
    let out = server.handle_at(conn, list(None, Some(3), 2), SECOND, 300);
    assert_eq!(texts(&out), vec![b"a".to_vec(), b"b".to_vec()]);
    let out = server.handle_at(conn, list(Some(99), None, 2), SECOND, 300);
    assert!(out.first.is_empty());
    let out = server.handle_at(conn, list(None, None, 65), SECOND, 300);
    assert_eq!(error_of(&out), ERR_LIMIT_REACHED);

    let update = |channel, id| Packet::MessageUpdate(MessageUpdate { channel, id, text: b"new".to_vec() });
    assert_eq!(error_of(&server.handle_at(owner, update(1, 2), SECOND, 400)), ERR_MISSING_PERMISSION);
    assert_eq!(error_of(&server.handle_at(conn, update(2, 2), SECOND, 400)), ERR_UNKNOWN_CHANNEL);
    assert_eq!(error_of(&server.handle_at(conn, update(1, 9), SECOND, 400)), ERR_UNKNOWN_MESSAGE);
    let out = server.handle_at(conn, update(1, 2), SECOND, 400);
    match &out.event {
        Some(Packet::MessageReceive(event)) => {
            assert_eq!(event.inner.text, b"new");
            assert_eq!(event.inner.author, bob);
            assert_eq!(event.inner.timestamp, 201);
            assert_eq!(event.inner.timestamp_edit, Some(400));
        }
        other => panic!("no event: {:?}", other),
    }
    let delete = |channel, id| Packet::MessageDelete(MessageDelete { channel, id });
    assert_eq!(error_of(&server.handle_at(conn, delete(1, 9), SECOND, 400)), ERR_UNKNOWN_MESSAGE);
    assert_eq!(error_of(&server.handle_at(conn, delete(2, 1), SECOND, 400)), ERR_UNKNOWN_CHANNEL);
    assert_eq!(error_of(&server.handle_at(conn, delete(5, 1), SECOND, 400)), ERR_UNKNOWN_CHANNEL);
    let out = server.handle_at(owner, delete(1, 1), SECOND, 400);
    assert!(matches!(&out.event, Some(Packet::MessageDeleteReceive(d)) if d.id == 1));
    assert_eq!(server.store().messages().len(), 3);
    let out = server.handle_at(owner, Packet::ChannelDelete(ChannelDelete { id: 1 }), SECOND, 400);
    assert!(matches!(&out.event, Some(Packet::ChannelDeleteReceive(d)) if d.inner.name == "one"));
    assert!(server.store().messages().is_empty());
    assert_eq!(server.store().channels().len(), 1);
}

#[test]
fn overrides_decide_who_reads_and_unknown_roles_are_dropped() {
    let mut server = server();
    let (owner, _, _) = join(&mut server, IP_A, "alice");
    let (conn, _, _) = join(&mut server, IP_B, "bob");
    let mut overrides = HashMap::new();
    overrides.insert(1usize, (0u8, PERM_READ));
    overrides.insert(77usize, (255u8, 0u8));
    let out = server.handle_at(
        owner,
        Packet::ChannelCreate(ChannelCreate { name: "secret".to_string(), overrides }),
        SECOND,
        101,
    );
    let mut kept = HashMap::new();
    kept.insert(1usize, (0u8, PERM_READ));
    assert!(matches!(&out.event, Some(Packet::ChannelReceive(e)) if e.inner.overrides == kept));
    assert_eq!(server.store().channels()[0].overrides, kept);
    let out = server.handle_at(
        owner,
        Packet::MessageCreate(MessageCreate { channel: 1, text: b"psst".to_vec() }),
        SECOND,
        101,
    );
    assert_eq!(out.recipients, vec![owner]);
    let out = server.handle_at(
        conn,
        Packet::MessageList(MessageList { after: None, before: None, channel: 1, limit: 5 }),
        SECOND,
        101,
    );
    assert_eq!(error_of(&out), ERR_MISSING_PERMISSION);
    let inner = Channel { id: 1, name: "open".to_string(), overrides: HashMap::new() };
    let out = server.handle_at(
        owner,
        Packet::ChannelUpdate(ChannelUpdate { inner: inner.clone(), keep_overrides: true }),
        SECOND,
        101,
    );
    assert!(matches!(&out.event, Some(Packet::ChannelReceive(e)) if e.inner.name == "open" && e.inner.overrides == kept));
    let out = server.handle_at(
        owner,
        Packet::ChannelUpdate(ChannelUpdate { inner, keep_overrides: false }),
        SECOND,
        101,
    );
    assert!(matches!(&out.event, Some(Packet::ChannelReceive(e)) if e.inner.overrides.is_empty()));
    let out = server.handle_at(conn, Packet::Typing(Typing { channel: 1 }), SECOND, 101);
    assert!(matches!(&out.event, Some(Packet::TypingReceive(t)) if t.author == 2 && t.channel == 1));
    assert_eq!(out.recipients, vec![owner, conn]);
    let gone = Channel { id: 9, name: "gone".to_string(), overrides: HashMap::new() };
    let out = server.handle_at(
        owner,
        Packet::ChannelUpdate(ChannelUpdate { inner: gone, keep_overrides: false }),
        SECOND,
        101,
    );
    assert_eq!(error_of(&out), ERR_UNKNOWN_CHANNEL);
}

#[test]
fn assigning_roles() {
    let mut server = server();
    let (owner, _, _) = join(&mut server, IP_A, "alice");
    let (conn, bob, _) = join(&mut server, IP_B, "bob");
    server.handle_at(owner, role_create("low", 1, 0), SECOND, 101);
    server.handle_at(owner, role_create("helper", 2, PERM_ASSIGN_ATTRIBUTES | PERM_BAN), SECOND, 101);
    server.handle_at(owner, role_create("high", 3, 0), SECOND, 101);
    let assign = |id: usize, list: Vec<usize>| {
        Packet::UserUpdate(UserUpdate { attributes: Some(list), ban: None, id })
    };
    assert_eq!(error_of(&server.handle_at(conn, assign(bob, vec![3]), SECOND, 101)), ERR_MISSING_PERMISSION);
    assert_eq!(error_of(&server.handle_at(owner, assign(bob, vec![1]), SECOND, 101)), ERR_MISSING_PERMISSION);
    assert_eq!(error_of(&server.handle_at(owner, assign(bob, vec![9]), SECOND, 101)), ERR_MISSING_PERMISSION);
    let out = server.handle_at(owner, assign(bob, vec![4]), SECOND, 101);
    assert!(matches!(&out.event, Some(Packet::UserReceive(e)) if e.inner.id == bob && e.inner.attributes == vec![4]));
    assert_eq!(out.recipients, vec![owner, conn]);
    let (other, carol, _) = join(&mut server, IP_B, "carol");
    let out = server.handle_at(conn, assign(carol, vec![3]), SECOND, 101);
    assert!(matches!(&out.event, Some(Packet::UserReceive(e)) if e.inner.attributes == vec![3]));
    assert_eq!(error_of(&server.handle_at(conn, assign(carol, vec![3, 5]), SECOND, 101)), ERR_MISSING_PERMISSION);
    assert_eq!(error_of(&server.handle_at(conn, assign(carol, vec![3, 4]), SECOND, 101)), ERR_MISSING_PERMISSION);
    assert_eq!(error_of(&server.handle_at(conn, assign(carol, vec![3]), SECOND, 101)), ERR_MISSING_PERMISSION);
    let out = server.handle_at(conn, assign(carol, vec![]), SECOND, 101);
    assert!(out.event.is_some());
    let _ = other;
    let out = server.handle_at(owner, Packet::AttributeDelete(AttributeDelete { id: 4 }), SECOND, 101);
    assert!(out.event.is_some());
    assert!(server.store().accounts()[1].user.attributes.is_empty());
}

#[test]
fn changing_the_own_account() {
    let mut server = server();
    let (conn, id, token) = join(&mut server, IP_A, "alice");
    join(&mut server, IP_B, "bob");
    let update = |name: Option<&str>, current: Option<&str>, new: Option<&str>, reset_token: bool| {
        Packet::LoginUpdate(LoginUpdate {
            name: name.map(|s| s.to_string()),
            password_current: current.map(|s| s.to_string()),
            password_new: new.map(|s| s.to_string()),
            reset_token,
        })
    };
    assert_eq!(error_of(&server.handle_at(conn, update(None, None, None, false), SECOND, 101)), ERR_MISSING_FIELD);
    assert_eq!(error_of(&server.handle_at(conn, update(Some("Bob"), None, None, false), SECOND, 101)), ERR_LOGIN_INVALID);
    assert_eq!(error_of(&server.handle_at(conn, update(Some(""), None, None, false), SECOND, 101)), ERR_LIMIT_REACHED);
    assert_eq!(error_of(&server.handle_at(conn, update(None, Some("pw"), None, false), SECOND, 101)), ERR_MISSING_FIELD);
    assert_eq!(error_of(&server.handle_at(conn, update(None, Some("no"), Some("new"), false), SECOND, 101)), ERR_LOGIN_INVALID);
    let out = server.handle_at(conn, update(Some("alicia"), None, None, false), SECOND, 101);
    assert!(out.first.is_empty());
    assert!(matches!(&out.event, Some(Packet::UserReceive(e)) if e.inner.id == id && e.inner.name == "alicia"));
    assert_eq!(out.recipients.len(), 2);
    let out = server.handle_at(conn, update(None, None, None, true), SECOND, 101);
    let fresh = match &out.first[0] {
        Packet::LoginSuccess(success) => {
            assert_eq!(success.id, id);
            assert!(!success.created);
            assert_ne!(success.token, token);
            success.token.clone()
        }
        other => panic!("no token: {:?}", other),
    };
    assert!(out.event.is_none());
    assert_eq!(server.store().accounts()[0].token, fresh);
    let out = server.handle_at(conn, update(None, Some("pw"), Some("better"), false), SECOND, 101);
    assert!(matches!(&out.first[0], Packet::LoginSuccess(s) if s.token != fresh));
    let next = server.accept(IP_A).unwrap();
    let out = server.handle_at(next, login("alicia", Some("better"), None), SECOND, 101);
    assert!(matches!(&out.first[0], Packet::LoginSuccess(s) if s.id == id));
    let next = server.accept(IP_A).unwrap();
    let out = server.handle_at(next, login("alicia", Some("pw"), None), SECOND, 101);
    assert_eq!(error_of(&out), ERR_LOGIN_INVALID);
}

#[test]
fn an_empty_frame_ends_the_connection() {
    let mut server = server();
    let a = server.accept(IP_A).unwrap();
    let b = server.accept(IP_A).unwrap();
    assert!(server.frame_announced(a, 1));
    assert!(server.frame_announced(a, 65535));
    assert_eq!(server.registry().sessions().len(), 2);
    assert!(!server.frame_announced(a, 0));
    assert_eq!(server.registry().sessions().len(), 1);
    assert_eq!(server.registry().sessions()[0].conn_id, b);
}

#[test]
fn delivery_failures() {
    let mut server = server();
    let a = server.accept(IP_A).unwrap();
    let b = server.accept(IP_A).unwrap();
    server.delivery_failed(a, false);
    assert_eq!(server.registry().sessions().len(), 2);
    server.delivery_failed(a, true);
    assert_eq!(server.registry().sessions().len(), 1);
    assert_eq!(server.registry().sessions()[0].conn_id, b);
    let out = server.handle_at(a, Packet::Close, 0, 0);
    assert!(out.first.is_empty() && out.closed.is_empty());
}

#[test]
fn handle_reads_the_clocks() {
    let mut server = server();
    let conn = server.accept(IP_A).unwrap();
    let out = server.handle(conn, login("alice", Some("pw"), None));
    assert!(matches!(&out.first[0], Packet::LoginSuccess(s) if s.id == 1 && s.created));
    let _ = (PERM_BAN, PERM_WRITE);
}
