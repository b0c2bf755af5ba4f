use chat_core::idlist::{from_list, get_list};
use chat_core::names::names_match;
use chat_core::rows::{
    get_account_by_fields, get_channel_by_fields, get_group_by_fields, get_message_by_fields,
    get_user_by_fields, to_id, OverrideRow,
};
use chat_core::secrets::{check_password, gen_token, hash_password, token_from_bytes};
use chat_core::types::{Attribute, Message, User};

#[test]
fn tokens_are_made_of_letters_and_digits() {
    assert_eq!(token_from_bytes(&[]), "");
    assert_eq!(token_from_bytes(&[0, 25, 26, 51, 52, 61, 62, 255]), "azAZ09ah");
}

#[test]
fn gen_token_gives_64_characters_and_not_the_same_twice() {
    let a = gen_token().unwrap();
    let b = gen_token().unwrap();
    assert_eq!(a.len(), 64);
    assert!(a.chars().all(|c| c.is_ascii_alphanumeric()));
    assert_ne!(a, b);
}

#[test]
fn a_hash_accepts_its_password_and_no_other() {
    let hash = hash_password("hunter2").unwrap();
    assert_ne!(hash, "hunter2");
    assert_eq!(hash.len(), 60);
    assert_eq!(check_password("hunter2", &hash), Some(true));
    assert_eq!(check_password("hunter3", &hash), Some(false));
    assert_eq!(check_password("hunter2", "no hash"), None);
}

#[test]
fn check_password_against_a_known_hash() {
    let hash = "$2y$05$bvIG6Nmid91Mu9RcmmWZfO5HJIMCT8riNW0hEp8f6/FuA2/mHZFpe";
    assert_eq!(check_password("password", hash), Some(true));
    assert_eq!(check_password("Password", hash), Some(false));
}

#[test]
fn names_match_without_regard_to_ascii_case() {
    assert!(names_match("Alice", "aLICE"));
    assert!(names_match("", ""));
    assert!(!names_match("alice", "alice "));
    assert!(!names_match("alice", "alicf"));
    assert!(names_match("zürich", "ZüRICH"));
    assert!(!names_match("zürich", "zÜrich"));
    assert!(!names_match("a[", "a{"));
    assert!(!names_match("@", "`"));
}

#[test]
fn from_list_writes_decimals_with_commas() {
    assert_eq!(from_list(&[]), "");
    assert_eq!(from_list(&[0]), "0");
    assert_eq!(from_list(&[3, 10, 4095]), "3,10,4095");
    assert_eq!(from_list(&[usize::MAX]), usize::MAX.to_string());
}

#[test]
fn get_list_reads_what_from_list_wrote() {
    for list in [vec![], vec![0], vec![7], vec![3, 10, 4095], vec![usize::MAX, 0, 12]] {
        assert_eq!(get_list(&from_list(&list)), Some(list));
    }
}

#[test]
fn get_list_skips_empty_places_and_refuses_what_is_no_number() {
    assert_eq!(get_list(""), Some(vec![]));
    assert_eq!(get_list(",,3,,4,"), Some(vec![3, 4]));
    assert_eq!(get_list("007"), Some(vec![7]));
    assert_eq!(get_list("3, 4"), None);
    assert_eq!(get_list("-3"), None);
    assert_eq!(get_list("3,x"), None);
    assert_eq!(get_list("99999999999999999999999999"), None);
}

#[test]
fn ids_from_numbers() {
    assert_eq!(to_id(0), Some(0));
    assert_eq!(to_id(42), Some(42));
    assert_eq!(to_id(-1), None);
}

#[test]
fn entities_from_rows() {
    assert_eq!(
        get_group_by_fields(3, 0, 5, "mod".to_string(), 2, true),
        Some(Attribute { allow: 3, deny: 0, id: 5, name: "mod".to_string(), pos: 2, unassignable: true })
    );
    assert_eq!(get_group_by_fields(3, 0, -5, "mod".to_string(), 2, true), None);
    assert_eq!(
        get_user_by_fields(false, true, "4,3", 2, "bob".to_string()),
        Some(User { attributes: vec![4, 3], ban: false, bot: true, id: 2, name: "bob".to_string() })
    );
    assert_eq!(get_user_by_fields(false, true, "4;3", 2, "bob".to_string()), None);
    assert_eq!(
        get_message_by_fields(1, 2, 3, b"hi".to_vec(), 50, Some(60)),
        Some(Message {
            author: 1,
            channel: 2,
            id: 3,
            text: b"hi".to_vec(),
            timestamp: 50,
            timestamp_edit: Some(60)
        })
    );
    assert_eq!(get_message_by_fields(1, -2, 3, b"hi".to_vec(), 50, None), None);
    let rows = vec![
        OverrideRow { role: 3, allow: 1, deny: 2 },
        OverrideRow { role: 4, allow: 0, deny: 1 },
        OverrideRow { role: 3, allow: 5, deny: 6 },
    ];
    let channel = get_channel_by_fields(9, "general".to_string(), &rows).unwrap();
    assert_eq!(channel.id, 9);
    assert_eq!(channel.name, "general");
    assert_eq!(channel.overrides.len(), 2);
    assert_eq!(channel.overrides[&3], (5, 6));
    assert_eq!(channel.overrides[&4], (0, 1));
    let bad = vec![OverrideRow { role: -3, allow: 1, deny: 2 }];
    assert!(get_channel_by_fields(9, "general".to_string(), &bad).is_none());
    let account = get_account_by_fields(
        true,
        false,
        "",
        1,
        77,
        "alice".to_string(),
        "hash".to_string(),
        "token".to_string(),
    )
    .unwrap();
    assert!(account.user.ban);
    assert_eq!(account.user.id, 1);
    assert_eq!(account.last_ip, 77);
    assert_eq!(account.password, "hash");
    assert_eq!(account.token, "token");
}
