use chat_core::client::{begin, login_request, on_reply, Phase, Reason, Verdict};
use chat_core::consts::{
    ERR_LIMIT_REACHED, ERR_LOGIN_BANNED, ERR_LOGIN_BOT, ERR_LOGIN_INVALID, ERR_MAX_CONN_PER_IP,
    ERR_MISSING_FIELD, ERR_UNKNOWN_USER,
};
use chat_core::packet::{Login, LoginSuccess, Packet};
use chat_core::secrets::{fingerprint, hex, pin_matches};

fn success(created: bool) -> Packet {
    Packet::LoginSuccess(LoginSuccess { created, id: 7, token: "T".to_string() })
}

#[test]
fn the_client_starts_with_the_token_where_it_has_one() {
    assert_eq!(begin(&Some("T".to_string())), Phase::Token);
    assert_eq!(begin(&None), Phase::Password);
}

#[test]
fn login_requests() {
    assert_eq!(
        login_request("alice", Phase::Token, "T".to_string()),
        Packet::Login(Login {
            bot: false,
            name: "alice".to_string(),
            password: None,
            token: Some("T".to_string())
        })
    );
    assert_eq!(
        login_request("alice", Phase::Password, "pw".to_string()),
        Packet::Login(Login {
            bot: false,
            name: "alice".to_string(),
            password: Some("pw".to_string()),
            token: None
        })
    );
}

#[test]
fn answers_to_a_token_login() {
    assert_eq!(
        on_reply(Phase::Token, success(false)),
        Verdict::LoggedIn { id: 7, keep: None, created: false }
    );
    assert_eq!(on_reply(Phase::Token, success(true)), Verdict::Abort(Reason::AccountCreated));
    assert_eq!(on_reply(Phase::Token, Packet::Error(ERR_LOGIN_INVALID)), Verdict::AskPassword);
    assert_eq!(
        on_reply(Phase::Token, Packet::Error(ERR_MISSING_FIELD)),
        Verdict::Abort(Reason::InvalidError)
    );
    assert_eq!(on_reply(Phase::Token, Packet::Error(ERR_LOGIN_BANNED)), Verdict::Abort(Reason::Banned));
    assert_eq!(on_reply(Phase::Token, Packet::Error(ERR_LOGIN_BOT)), Verdict::Abort(Reason::BotAccount));
    assert_eq!(on_reply(Phase::Token, Packet::Error(ERR_LIMIT_REACHED)), Verdict::Abort(Reason::NameLimit));
    assert_eq!(
        on_reply(Phase::Token, Packet::Error(ERR_MAX_CONN_PER_IP)),
        Verdict::Abort(Reason::TooManyConnections)
    );
    assert_eq!(on_reply(Phase::Token, Packet::Error(ERR_UNKNOWN_USER)), Verdict::Abort(Reason::InvalidError));
    assert_eq!(on_reply(Phase::Token, Packet::Close), Verdict::Abort(Reason::InvalidPacket));
}

#[test]
fn answers_to_a_password_login() {
    assert_eq!(
        on_reply(Phase::Password, success(true)),
        Verdict::LoggedIn { id: 7, keep: Some("T".to_string()), created: true }
    );
    assert_eq!(
        on_reply(Phase::Password, success(false)),
        Verdict::LoggedIn { id: 7, keep: Some("T".to_string()), created: false }
    );
    assert_eq!(
        on_reply(Phase::Password, Packet::Error(ERR_LOGIN_INVALID)),
        Verdict::Abort(Reason::InvalidCredentials)
    );
    assert_eq!(
        on_reply(Phase::Password, Packet::Error(ERR_MISSING_FIELD)),
        Verdict::Abort(Reason::InvalidError)
    );
    assert_eq!(
        on_reply(Phase::Password, Packet::Error(ERR_MAX_CONN_PER_IP)),
        Verdict::Abort(Reason::InvalidError)
    );
    assert_eq!(on_reply(Phase::Password, Packet::Error(ERR_LOGIN_BANNED)), Verdict::Abort(Reason::Banned));
    assert_eq!(on_reply(Phase::Password, Packet::RateLimited(3)), Verdict::Abort(Reason::InvalidPacket));
}

#[test]
fn reasons_have_messages() {
    assert_eq!(Reason::Banned.message(), "You have been banned from this server. :(");
    assert_eq!(Reason::InvalidCredentials.message(), "Invalid credentials");
    assert_eq!(Reason::NameLimit.message(), "Username too long");
}

#[test]
fn only_a_stale_token_leads_to_the_password() {
    for code in 0..=255u8 {
        let verdict = on_reply(Phase::Token, Packet::Error(code));
        if code == ERR_LOGIN_INVALID {
            assert_eq!(verdict, Verdict::AskPassword);
        } else {
            assert!(matches!(verdict, Verdict::Abort(_)));
        }
        assert!(matches!(on_reply(Phase::Password, Packet::Error(code)), Verdict::Abort(_)));
    }
}

#[test]
fn hex_is_capital_and_has_two_digits_for_each_byte() {
    assert_eq!(hex(&[]), "");
    assert_eq!(hex(&[0]), "00");
    assert_eq!(hex(&[0x0a, 0xa0, 0xff, 0x10, 0x01]), "0AA0FF1001");
    assert_eq!(hex(&[0x09, 0x9f, 0xf9]), "099FF9");
}

#[test]
fn fingerprint_is_the_sha256_digest_in_64_hex_digits() {
    assert_eq!(
        fingerprint(b"abc"),
        "BA7816BF8F01CFEA414140DE5DAE2223B00361A396177A9CB410FF61F20015AD"
    );
    assert_eq!(
        fingerprint(b""),
        "E3B0C44298FC1C149AFBF4C8996FB92427AE41E4649B934CA495991B7852B855"
    );
    assert_eq!(fingerprint(b"abc").len(), 64);
    assert_ne!(fingerprint(b"abc"), fingerprint(b"abd"));
}

#[test]
fn the_pin_is_compared_without_case_and_without_the_space_around_it() {
    let pin = "ba7816bf8f01cfea414140de5dae2223b00361a396177a9cb410ff61f20015ad";
    assert!(pin_matches(pin, b"abc"));
    assert!(pin_matches(&fingerprint(b"abc"), b"abc"));
    assert!(pin_matches(&format!("  {}\n", pin.to_uppercase()), b"abc"));
    assert!(!pin_matches(pin, b"abd"));
    assert!(!pin_matches(&pin[1..], b"abc"));
    assert!(!pin_matches("", b"abc"));
    assert!(!pin_matches(&format!("{} x", pin), b"abc"));
    assert!(!pin_matches("ba7816bf8f1cfea414140de5dae2223b0361a396177a9cb410ff61f2015ad", b"abc"));
}

#[test]
fn white_space_around_the_pin_is_what_unicode_calls_white_space() {
    let pin = "ba7816bf8f01cfea414140de5dae2223b00361a396177a9cb410ff61f20015ad";
    let spaces = [
        0x09u32, 0x0a, 0x0b, 0x0c, 0x0d, 0x20, 0x85, 0xa0, 0x1680, 0x2000, 0x2001, 0x2002, 0x2003,
        0x2004, 0x2005, 0x2006, 0x2007, 0x2008, 0x2009, 0x200a, 0x2028, 0x2029, 0x202f, 0x205f,
        0x3000,
    ];
    for code in spaces {
        let c = char::from_u32(code).unwrap();
        assert!(pin_matches(&format!("{}{}{}{}", c, c, pin, c), b"abc"));
        assert!(!pin_matches(&format!("{}{}{}", &pin[..10], c, &pin[10..]), b"abc"));
    }
    for code in [0x08u32, 0x0e, 0x1f, 0x21, 0x84, 0x86, 0x9f, 0xa1, 0x180e, 0x1fff, 0x200b, 0x2027, 0x202a, 0x2060, 0x3001, 0xfeff] {
        let c = char::from_u32(code).unwrap();
        assert!(!pin_matches(&format!("{}{}", c, pin), b"abc"));
        assert!(!pin_matches(&format!("{}{}", pin, c), b"abc"));
    }
}
