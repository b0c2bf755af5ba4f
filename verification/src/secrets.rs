//! Tokens, password checks and the fingerprint of a public key.

use crate::names::{lemma_same_name_equivalence, names_match, same_name};
use crate::outside::{
    bcrypt_hash, bcrypt_verdict, bcrypt_verify, lemma_trimmed_keeps, push_char, rand_bytes, sha256,
    sha256_digest, trim, trimmed,
};
use vstd::prelude::*;

verus! {

/// The number of characters of a token.
pub const TOKEN_LEN: usize = 64;

/// The number of characters that a token is made of: the small letters,
/// the capital letters and the digits.
pub const TOKEN_CHARS: u8 = 62;

/// The character of a token that a random byte stands for: the byte
/// modulo 62 counts through `a`..`z`, `A`..`Z` and `0`..`9`.
pub open spec fn token_char(byte: u8) -> char {
    let i = byte % TOKEN_CHARS;
    if i < 26 {
        (97 + i) as char
    } else if i < 52 {
        (65 + (i - 26)) as char
    } else {
        (48 + (i - 52)) as char
    }
}

/// The token that a run of random bytes stands for.
pub open spec fn token_text(bytes: Seq<u8>) -> Seq<char> {
    Seq::new(bytes.len(), |i: int| token_char(bytes[i]))
}

/// Whether a character may stand in a token.
pub open spec fn is_token_char(c: char) -> bool {
    ('a' <= c && c <= 'z') || ('A' <= c && c <= 'Z') || ('0' <= c && c <= '9')
}

/// Whether a text has the form of a token: 64 letters and digits.
pub open spec fn is_token(text: Seq<char>) -> bool {
    text.len() == TOKEN_LEN && forall|i: int| 0 <= i < text.len() ==> is_token_char(#[trigger] text[i])
}

fn token_char_of(byte: u8) -> (c: char)
    ensures
        c == token_char(byte),
        is_token_char(c),
{
    let i: u8 = byte % TOKEN_CHARS;
    if i < 26 {
        (97 + i) as char
    } else if i < 52 {
        (65 + (i - 26)) as char
    } else {
        (48 + (i - 52)) as char
    }
}

/// Turns random bytes into the text of a token, one character for each
/// byte.
pub fn token_from_bytes(bytes: &[u8]) -> (token: String)
    ensures
        token@ == token_text(bytes@),
        forall|i: int| 0 <= i < token@.len() ==> is_token_char(#[trigger] token@[i]),
{
    let mut token = String::new();
    let mut i: usize = 0;
    while i < bytes.len()
        invariant
            i <= bytes.len(),
            token@.len() == i,
            forall|j: int| 0 <= j < i ==> #[trigger] token@[j] == token_char(bytes@[j]),
            forall|j: int| 0 <= j < i ==> is_token_char(#[trigger] token@[j]),
        decreases bytes.len() - i,
    {
        push_char(&mut token, token_char_of(bytes[i]));
        i += 1;
    }
    assert(token@ =~= token_text(bytes@));
    token
}

/// Makes a new token from 64 random bytes. `None` says that the source of
/// randomness failed.
pub fn gen_token() -> (token: Option<String>)
    ensures
        token matches Some(text) ==> is_token(text@),
{
    let mut bytes: Vec<u8> = Vec::new();
    let mut i: usize = 0;
    while i < TOKEN_LEN
        invariant
            i <= TOKEN_LEN,
            bytes@.len() == i,
        decreases TOKEN_LEN - i,
    {
        bytes.push(0);
        i += 1;
    }
    match rand_bytes(&mut bytes) {
        Ok(_) => Some(token_from_bytes(bytes.as_slice())),
        Err(_) => None,
    }
}

/// Tests a password against a stored hash. `None` says that the stored
/// text is no hash.
pub fn check_password(password: &str, hash: &str) -> (out: Option<bool>)
    ensures
        out == bcrypt_verdict(password@, hash@),
{
    match bcrypt_verify(password, hash) {
        Ok(same) => Some(same),
        Err(_) => None,
    }
}

/// Hashes a password for storing. `None` says that hashing failed; a hash
/// that is given is one that `check_password` accepts for the password.
pub fn hash_password(password: &str) -> (out: Option<String>)
    ensures
        out matches Some(hash) ==> bcrypt_verdict(password@, hash@) == Some(true),
{
    match bcrypt_hash(password) {
        Ok(hash) => Some(hash),
        Err(_) => None,
    }
}

/// The digit of a number below 16 in capital hexadecimal.
pub open spec fn hex_digit(n: u8) -> char {
    if n < 10 {
        (48 + n) as char
    } else {
        (55 + n) as char
    }
}

/// A byte in capital hexadecimal: two digits, the high one first.
pub open spec fn hex_byte(byte: u8) -> Seq<char> {
    seq![hex_digit(byte / 16), hex_digit(byte % 16)]
}

/// A run of bytes in capital hexadecimal, two digits for each byte.
pub open spec fn hex_text(bytes: Seq<u8>) -> Seq<char>
    decreases bytes.len(),
{
    if bytes.len() == 0 {
        Seq::empty()
    } else {
        hex_text(bytes.drop_last()) + hex_byte(bytes.last())
    }
}

/// The fingerprint of a public key in PEM form: its SHA-256 digest in
/// capital hexadecimal, 64 digits for the 32 bytes of the digest.
pub open spec fn fingerprint_text(pem: Seq<u8>) -> Seq<char> {
    hex_text(sha256_digest(pem))
}

/// Whether a pin is the fingerprint of a key: the pin without the white
/// space around it is the hexadecimal SHA-256 digest of the key, read
/// without regard to the case of its letters.
pub open spec fn pin_accepts(pin: Seq<char>, pem: Seq<u8>) -> bool {
    same_name(trimmed(pin), fingerprint_text(pem))
}

fn hex_digit_of(n: u8) -> (c: char)
    requires
        n < 16,
    ensures
        c == hex_digit(n),
{
    if n < 10 {
        (48 + n) as char
    } else {
        (55 + n) as char
    }
}

/// Writes bytes in capital hexadecimal, two digits for each byte.
pub fn hex(bytes: &[u8]) -> (text: String)
    ensures
        text@ == hex_text(bytes@),
        text@.len() == 2 * bytes@.len(),
{
    let mut text = String::new();
    let mut i: usize = 0;
    while i < bytes.len()
        invariant
            i <= bytes.len(),
            text@ == hex_text(bytes@.take(i as int)),
        decreases bytes.len() - i,
    {
        assert(bytes@.take(i + 1).drop_last() =~= bytes@.take(i as int));
        let ghost before = text@;
        let byte = bytes[i];
        push_char(&mut text, hex_digit_of(byte / 16));
        push_char(&mut text, hex_digit_of(byte % 16));
        assert(text@ =~= before + hex_byte(byte));
        i += 1;
    }
    assert(bytes@.take(bytes.len() as int) =~= bytes@);
    proof {
        lemma_hex_text(bytes@);
    }
    text
}

/// The fingerprint of a public key in PEM form, which the server shows to
/// its operator and the client holds as its pin: 64 hexadecimal digits.
pub fn fingerprint(pem: &[u8]) -> (text: String)
    ensures
        text@ == fingerprint_text(pem@),
        text@.len() == 64,
{
    let digest = sha256(pem);
    hex(digest.as_slice())
}

/// Tests the pin that a client holds against the public key that a server
/// presents.
pub fn pin_matches(pin: &str, pem: &[u8]) -> (ok: bool)
    ensures
        ok == pin_accepts(pin@, pem@),
{
    let print = fingerprint(pem);
    names_match(trim(pin), print.as_str())
}

/// Whether a character is a digit of capital hexadecimal.
pub open spec fn is_hex_digit(c: char) -> bool {
    ('0' <= c && c <= '9') || ('A' <= c && c <= 'F')
}

/// The hexadecimal text of a run of bytes has two digits for each byte, and
/// nothing but digits.
pub proof fn lemma_hex_text(bytes: Seq<u8>)
    ensures
        hex_text(bytes).len() == 2 * bytes.len(),
        forall|i: int| 0 <= i < hex_text(bytes).len() ==> is_hex_digit(#[trigger] hex_text(bytes)[i]),
    decreases bytes.len(),
{
    if bytes.len() > 0 {
        lemma_hex_text(bytes.drop_last());
        let head = hex_text(bytes.drop_last());
        let last = hex_byte(bytes.last());
        assert(is_hex_digit(last[0]) && is_hex_digit(last[1]));
        assert forall|i: int| 0 <= i < hex_text(bytes).len() implies is_hex_digit(
            #[trigger] hex_text(bytes)[i],
        ) by {
            if i < head.len() {
                assert(hex_text(bytes)[i] == head[i]);
            } else {
                assert(hex_text(bytes)[i] == last[i - head.len()]);
            }
        }
    }
}

/// The text that a server shows for its key is a pin that a client accepts
/// for that key.
pub proof fn lemma_fingerprint_is_a_pin(pem: Seq<u8>)
    ensures
        pin_accepts(fingerprint_text(pem), pem),
{
    let print = fingerprint_text(pem);
    lemma_hex_text(sha256_digest(pem));
    if print.len() > 0 {
        assert(is_hex_digit(print[0]));
        assert(is_hex_digit(print[print.len() - 1]));
    }
    lemma_trimmed_keeps(print);
    lemma_same_name_equivalence(print, print, print);
}

} // verus!
