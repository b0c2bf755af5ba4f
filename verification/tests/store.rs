use chat_core::state::Account;
use chat_core::store::Store;
use chat_core::types::{Attribute, Channel, Message, User};
use std::collections::HashMap;

fn role(id: usize, name: &str, pos: usize) -> Attribute {
    Attribute { allow: 1, deny: 0, id, name: name.to_string(), pos, unassignable: false }
}

fn account(id: usize, name: &str, roles: Vec<usize>) -> Account {
    Account {
        user: User { attributes: roles, ban: false, bot: false, id, name: name.to_string() },
        password: "hash".to_string(),
        token: "token".to_string(),
        last_ip: 1,
    }
}

#[test]
fn a_new_store_holds_the_two_system_roles() {
    let store = Store::new();
    let roles = store.roles();
    assert_eq!(roles.len(), 2);
    assert_eq!(
        roles[0],
        Attribute { allow: 3, deny: 0, id: 1, name: "@humans".to_string(), pos: 0, unassignable: true }
    );
    assert_eq!(
        roles[1],
        Attribute { allow: 3, deny: 0, id: 2, name: "@bots".to_string(), pos: 0, unassignable: true }
    );
    assert!(store.accounts().is_empty());
    assert!(store.channels().is_empty());
    assert!(store.messages().is_empty());
    assert_eq!(store.counters(), (3, 1, 1, 1));
    assert!(store.has_room());
}

#[test]
fn roles_are_put_back_in_the_order_of_their_positions() {
    let mut store = Store::new();
    assert!(!store.restore_role(role(5, "b", 2)));
    assert!(store.restore_role(role(7, "a", 1)));
    assert!(store.restore_role(role(5, "b", 2)));
    assert!(!store.restore_role(role(5, "c", 3)));
    assert!(!store.restore_role(role(0, "c", 3)));
    assert!(store.restore_role(role(3, "c", 3)));
    assert_eq!(store.counters().0, 8);
    assert_eq!(store.roles().iter().map(|r| r.id).collect::<Vec<_>>(), vec![1, 2, 7, 5, 3]);
    let mut humans = role(1, "@humans", 0);
    humans.allow = 1;
    assert!(store.restore_role(humans));
    assert_eq!(store.roles()[0].allow, 1);
    assert!(store.roles()[0].unassignable);
    assert!(!store.restore_role(role(2, "@robots", 0)));
    assert!(!store.restore_role(role(2, "@bots", 1)));
    assert_eq!(store.get_group(5), Some(role(5, "b", 2)));
    assert_eq!(store.get_group(9), None);
}

#[test]
fn accounts_channels_and_messages_are_put_back_in_the_order_of_their_ids() {
    let mut store = Store::new();
    assert!(store.restore_role(role(3, "a", 1)));
    assert!(store.restore_account(account(2, "alice", vec![3])));
    assert!(!store.restore_account(account(2, "bob", vec![])));
    assert!(!store.restore_account(account(1, "bob", vec![])));
    assert!(!store.restore_account(account(5, "ALICE", vec![])));
    assert!(!store.restore_account(account(5, "bob", vec![4])));
    assert!(!store.restore_account(account(5, "bob", vec![1])));
    assert!(store.restore_account(account(5, "bob", vec![])));
    assert_eq!(store.counters().1, 6);
    assert_eq!(store.get_user(5).unwrap().name, "bob");
    assert_eq!(store.get_user(3), None);
    assert_eq!(store.find_user_by_name("BOB"), Some(1));
    assert_eq!(store.find_user_by_name("carol"), None);

    let mut overrides = HashMap::new();
    overrides.insert(3usize, (1u8, 2u8));
    overrides.insert(9usize, (1u8, 2u8));
    assert!(store.restore_channel(Channel { id: 4, name: "general".to_string(), overrides }));
    assert!(!store.restore_channel(Channel { id: 4, name: "x".to_string(), overrides: HashMap::new() }));
    let kept = store.get_channel(4).unwrap();
    assert_eq!(kept.overrides.len(), 1);
    assert_eq!(kept.overrides[&3], (1, 2));
    assert_eq!(store.get_channel(1), None);

    let message = Message { author: 2, channel: 4, id: 10, text: b"hi".to_vec(), timestamp: 5, timestamp_edit: None };
    assert!(store.restore_message(message.clone()));
    assert!(!store.restore_message(message.clone()));
    assert_eq!(store.get_message(10), Some(message));
    assert_eq!(store.get_message(11), None);
    assert_eq!(store.counters(), (4, 6, 5, 11));
    assert!(!store.restore_counters(4, 6, 5, 10));
    assert!(store.restore_counters(9, 6, 5, 20));
    assert_eq!(store.counters(), (9, 6, 5, 20));
}

#[test]
fn banned_addresses() {
    let mut store = Store::new();
    let mut banned = account(1, "alice", vec![]);
    banned.user.ban = true;
    banned.last_ip = 9;
    assert!(store.restore_account(banned));
    assert!(store.restore_account(account(2, "bob", vec![])));
    assert!(store.banned_address(9));
    assert!(!store.banned_address(1));
}
