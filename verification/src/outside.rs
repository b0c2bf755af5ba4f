//! The calls that this library makes into code that it does not verify.
//! The contract of every function in this file whose body makes such a
//! call is believed, not proved.

use vstd::prelude::*;

verus! {

/// The error of the `bcrypt` crate.
#[verifier::external_type_specification]
#[verifier::external_body]
pub struct ExBcryptError(bcrypt::BcryptError);

/// The error stack of the `openssl` crate.
#[verifier::external_type_specification]
#[verifier::external_body]
pub struct ExErrorStack(openssl::error::ErrorStack);

/// An instant of the monotonic clock of the standard library.
#[verifier::external_type_specification]
#[verifier::external_body]
pub struct ExInstant(std::time::Instant);

/// What `bcrypt::verify` says of a password and a hash: `Some(true)` when
/// the hash is a bcrypt hash of the password, `Some(false)` when it is a
/// bcrypt hash of something else, and `None` when it is no bcrypt hash.
pub uninterp spec fn bcrypt_verdict(password: Seq<char>, hash: Seq<char>) -> Option<bool>;

/// Whether a character is white space: one of the characters with the
/// Unicode property `White_Space`, by which `str::trim` goes.
pub open spec fn is_white_space(c: char) -> bool {
    let n = c as u32;
    ||| 0x09 <= n <= 0x0d
    ||| n == 0x20
    ||| n == 0x85
    ||| n == 0xa0
    ||| n == 0x1680
    ||| 0x2000 <= n <= 0x200a
    ||| n == 0x2028
    ||| n == 0x2029
    ||| n == 0x202f
    ||| n == 0x205f
    ||| n == 0x3000
}

/// A text without the white space at its start.
pub open spec fn trimmed_start(text: Seq<char>) -> Seq<char>
    decreases text.len(),
{
    if text.len() > 0 && is_white_space(text[0]) {
        trimmed_start(text.drop_first())
    } else {
        text
    }
}

/// A text without the white space at its end.
pub open spec fn trimmed_end(text: Seq<char>) -> Seq<char>
    decreases text.len(),
{
    if text.len() > 0 && is_white_space(text.last()) {
        trimmed_end(text.drop_last())
    } else {
        text
    }
}

/// What `str::trim` leaves of a text: the text without the white space at
/// its start and at its end.
pub open spec fn trimmed(text: Seq<char>) -> Seq<char> {
    trimmed_end(trimmed_start(text))
}

/// A text that neither starts nor ends with white space is left as it is.
pub proof fn lemma_trimmed_keeps(text: Seq<char>)
    requires
        text.len() > 0 ==> !is_white_space(text[0]) && !is_white_space(text[text.len() - 1]),
    ensures
        trimmed(text) == text,
{
}

/// The SHA-256 digest of some bytes, as `openssl::sha::sha256` computes
/// it.
pub uninterp spec fn sha256_digest(data: Seq<u8>) -> Seq<u8>;

/// `String::push` of the standard library: appends one character to the
/// end of the string.
#[verifier::external_body]
pub(crate) fn push_char(s: &mut String, c: char)
    ensures
        final(s)@ == old(s)@.push(c),
{
    s.push(c)
}

/// `str::trim` of the standard library: the text without the leading and
/// trailing characters that have the Unicode property `White_Space`.
#[verifier::external_body]
pub(crate) fn trim(text: &str) -> (out: &str)
    ensures
        out@ == trimmed(text@),
{
    text.trim()
}

/// `bcrypt::verify`: tests a password against a bcrypt hash. The answer
/// depends on the two texts alone; a text that is no bcrypt hash gives an
/// error.
#[verifier::external_body]
pub(crate) fn bcrypt_verify(password: &str, hash: &str) -> (out: Result<bool, bcrypt::BcryptError>)
    ensures
        match out {
            Ok(same) => bcrypt_verdict(password@, hash@) == Some(same),
            Err(_) => bcrypt_verdict(password@, hash@) is None,
        },
{
    bcrypt::verify(password, hash)
}

/// `bcrypt::hash` at `bcrypt::DEFAULT_COST`: hashes a password with a salt
/// that it draws at random, so two calls give different hashes. A hash
/// that it gives is one that `bcrypt::verify` accepts for the password.
#[verifier::external_body]
pub(crate) fn bcrypt_hash(password: &str) -> (out: Result<String, bcrypt::BcryptError>)
    ensures
        out matches Ok(hash) ==> bcrypt_verdict(password@, hash@) == Some(true),
{
    bcrypt::hash(password, bcrypt::DEFAULT_COST)
}

/// `openssl::rand::rand_bytes`: overwrites a buffer with random bytes. It
/// keeps the length of the buffer; it panics on a buffer of more than
/// `i32::MAX` bytes, which the precondition leaves out.
#[verifier::external_body]
pub(crate) fn rand_bytes(buf: &mut Vec<u8>) -> (out: Result<(), openssl::error::ErrorStack>)
    requires
        old(buf)@.len() <= 0x7fff_ffff,
    ensures
        final(buf)@.len() == old(buf)@.len(),
{
    openssl::rand::rand_bytes(buf.as_mut_slice())
}

/// `openssl::sha::sha256`: the SHA-256 digest of some bytes, which depends
/// on the bytes alone and is 32 bytes long.
#[verifier::external_body]
pub(crate) fn sha256(data: &[u8]) -> (out: [u8; 32])
    ensures
        out@ == sha256_digest(data@),
{
    openssl::sha::sha256(data)
}

/// `chrono::Utc::now` and `DateTime::timestamp`: the seconds since the
/// start of 1970 on the system clock. Nothing is promised of the number;
/// `Utc::now` panics on a machine whose clock stands before 1970.
#[verifier::external_body]
pub(crate) fn unix_time() -> (seconds: i64) {
    chrono::Utc::now().timestamp()
}

/// `Instant::now` of the standard library: the present instant of the
/// monotonic clock.
#[verifier::external_body]
pub(crate) fn instant_now() -> (now: std::time::Instant) {
    std::time::Instant::now()
}

/// `Instant::elapsed` of the standard library: the time since `origin`.
/// Nothing is promised of it.
#[verifier::external_body]
pub(crate) fn elapsed(origin: &std::time::Instant) -> (gone: std::time::Duration) {
    origin.elapsed()
}

/// `Duration::as_nanos` of the standard library: a span of time in whole
/// nanoseconds.
#[verifier::external_body]
pub(crate) fn as_nanos(span: &std::time::Duration) -> (nanos: u128) {
    span.as_nanos()
}

} // verus!
