//! The decisions of a client that connects: which login it tries, and what
//! each answer of the server means.

use crate::consts::{
    ERR_LIMIT_REACHED, ERR_LOGIN_BANNED, ERR_LOGIN_BOT, ERR_LOGIN_INVALID, ERR_MAX_CONN_PER_IP,
};
use crate::packet::{Login, LoginView, Packet, PacketView};
use crate::types::opt_text;
use vstd::prelude::*;

verus! {

/// Which login a client has sent.
#[derive(Debug, Clone, Copy, PartialEq, Eq, Structural)]
pub enum Phase {
    /// A login by the token that the client kept for the server.
    Token,
    /// A login by a password that the user typed.
    Password,
}

/// Why a client gives up connecting.
#[derive(Debug, Clone, Copy, PartialEq, Eq, Structural)]
pub enum Reason {
    /// A token login made the server create an account.
    AccountCreated,
    /// The account is banned.
    Banned,
    /// The account belongs to a bot.
    BotAccount,
    /// The name is too long or too short for the server.
    NameLimit,
    /// The server has too many connections from this address.
    TooManyConnections,
    /// The password is wrong.
    InvalidCredentials,
    /// The server answered with an error code that has no meaning here.
    InvalidError,
    /// The server answered with a packet that is no answer to a login.
    InvalidPacket,
}

/// What an answer to a login means to the client.
#[derive(Debug, Clone, PartialEq, Eq)]
pub enum Verdict {
    /// The client is logged in as the user `id`. `keep` is the token to keep
    /// for the server, where there is a new one to keep.
    LoggedIn { id: usize, keep: Option<String>, created: bool },
    /// The token is stale: the client asks the user for a password and logs
    /// in with it.
    AskPassword,
    /// The client gives up.
    Abort(Reason),
}

/// The view of `Verdict`.
pub enum VerdictView {
    LoggedIn { id: usize, keep: Option<Seq<char>>, created: bool },
    AskPassword,
    Abort(Reason),
}

impl View for Verdict {
    type V = VerdictView;

    open spec fn view(&self) -> VerdictView {
        match *self {
            Verdict::LoggedIn { id, keep, created } => VerdictView::LoggedIn {
                id,
                keep: opt_text(keep),
                created,
            },
            Verdict::AskPassword => VerdictView::AskPassword,
            Verdict::Abort(reason) => VerdictView::Abort(reason),
        }
    }
}

/// The login that a client starts with: by token where it kept one for the
/// server, else by password.
pub open spec fn first_phase(token: Option<Seq<char>>) -> Phase {
    if token is Some {
        Phase::Token
    } else {
        Phase::Password
    }
}

/// The login request of a human user: by token in the token phase, by
/// password in the password phase.
pub open spec fn login_request_spec(
    nick: Seq<char>,
    phase: Phase,
    secret: Seq<char>,
) -> PacketView {
    PacketView::Login(
        LoginView {
            bot: false,
            name: nick,
            password: if phase == Phase::Password {
                Some(secret)
            } else {
                None
            },
            token: if phase == Phase::Token {
                Some(secret)
            } else {
                None
            },
        },
    )
}

/// What an error code means as the answer to a login.
///
/// After a token login, `ERR_LOGIN_INVALID` says that the token is stale,
/// and the client goes on with a password; after a password login it says
/// that the password is wrong. Every other code makes the client give up;
/// `ERR_MAX_CONN_PER_IP` has a meaning of its own after a token login
/// only.
pub open spec fn error_verdict(phase: Phase, code: u8) -> VerdictView {
    if code == ERR_LOGIN_INVALID {
        if phase == Phase::Token {
            VerdictView::AskPassword
        } else {
            VerdictView::Abort(Reason::InvalidCredentials)
        }
    } else if code == ERR_LOGIN_BANNED {
        VerdictView::Abort(Reason::Banned)
    } else if code == ERR_LOGIN_BOT {
        VerdictView::Abort(Reason::BotAccount)
    } else if code == ERR_LIMIT_REACHED {
        VerdictView::Abort(Reason::NameLimit)
    } else if code == ERR_MAX_CONN_PER_IP && phase == Phase::Token {
        VerdictView::Abort(Reason::TooManyConnections)
    } else {
        VerdictView::Abort(Reason::InvalidError)
    }
}

/// What the answer of the server to a login means.
///
/// A success after a token login must not have created an account, and
/// leaves the kept token as it is; a success after a password login brings
/// the token to keep. Any packet but a success or an error is no answer.
pub open spec fn reply_verdict(phase: Phase, reply: PacketView) -> VerdictView {
    match reply {
        PacketView::LoginSuccess(success) => if phase == Phase::Token {
            if success.created {
                VerdictView::Abort(Reason::AccountCreated)
            } else {
                VerdictView::LoggedIn { id: success.id, keep: None, created: false }
            }
        } else {
            VerdictView::LoggedIn {
                id: success.id,
                keep: Some(success.token),
                created: success.created,
            }
        },
        PacketView::Error(code) => error_verdict(phase, code),
        _ => VerdictView::Abort(Reason::InvalidPacket),
    }
}

/// Says which login to start with.
pub fn begin(token: &Option<String>) -> (phase: Phase)
    ensures
        phase == first_phase(opt_text(*token)),
{
    if token.is_some() {
        Phase::Token
    } else {
        Phase::Password
    }
}

/// Builds the login request of a phase from the name and the token or the
/// password.
pub fn login_request(nick: &str, phase: Phase, secret: String) -> (packet: Packet)
    ensures
        packet@ == login_request_spec(nick@, phase, secret@),
{
    let name = nick.to_owned();
    match phase {
        Phase::Token => Packet::Login(Login { bot: false, name, password: None, token: Some(secret) }),
        Phase::Password => Packet::Login(
            Login { bot: false, name, password: Some(secret), token: None },
        ),
    }
}

/// Reads the answer of the server to the login of a phase.
pub fn on_reply(phase: Phase, reply: Packet) -> (verdict: Verdict)
    ensures
        verdict@ == reply_verdict(phase, reply@),
{
    match reply {
        Packet::LoginSuccess(success) => match phase {
            Phase::Token => {
                if success.created {
                    Verdict::Abort(Reason::AccountCreated)
                } else {
                    Verdict::LoggedIn { id: success.id, keep: None, created: false }
                }
            },
            Phase::Password => Verdict::LoggedIn {
                id: success.id,
                keep: Some(success.token),
                created: success.created,
            },
        },
        Packet::Error(code) => {
            let token_phase = match phase {
                Phase::Token => true,
                Phase::Password => false,
            };
            if code == ERR_LOGIN_INVALID {
                if token_phase {
                    Verdict::AskPassword
                } else {
                    Verdict::Abort(Reason::InvalidCredentials)
                }
            } else if code == ERR_LOGIN_BANNED {
                Verdict::Abort(Reason::Banned)
            } else if code == ERR_LOGIN_BOT {
                Verdict::Abort(Reason::BotAccount)
            } else if code == ERR_LIMIT_REACHED {
                Verdict::Abort(Reason::NameLimit)
            } else if code == ERR_MAX_CONN_PER_IP && token_phase {
                Verdict::Abort(Reason::TooManyConnections)
            } else {
                Verdict::Abort(Reason::InvalidError)
            }
        },
        _ => Verdict::Abort(Reason::InvalidPacket),
    }
}

impl Reason {
    /// The line that tells the user why the client gave up.
    pub fn message(&self) -> (text: String)
        ensures
            text@ == (match *self {
                Reason::AccountCreated => "Tried to log in with your token: Apparently an account was created."@,
                Reason::Banned => "You have been banned from this server. :("@,
                Reason::BotAccount => "This account is a bot account"@,
                Reason::NameLimit => "Username too long"@,
                Reason::TooManyConnections => "Too many connections made from this IP"@,
                Reason::InvalidCredentials => "Invalid credentials"@,
                Reason::InvalidError => "The server responded with an invalid error."@,
                Reason::InvalidPacket => "The server responded with an invalid packet."@,
            }),
    {
        match *self {
            Reason::AccountCreated => "Tried to log in with your token: Apparently an account was created.".to_owned(),
            Reason::Banned => "You have been banned from this server. :(".to_owned(),
            Reason::BotAccount => "This account is a bot account".to_owned(),
            Reason::NameLimit => "Username too long".to_owned(),
            Reason::TooManyConnections => "Too many connections made from this IP".to_owned(),
            Reason::InvalidCredentials => "Invalid credentials".to_owned(),
            Reason::InvalidError => "The server responded with an invalid error.".to_owned(),
            Reason::InvalidPacket => "The server responded with an invalid packet.".to_owned(),
        }
    }
}

/// A stale token never ends in a login without a password: whatever the
/// server answers to a token login, the client is logged in only by a
/// success that created no account.
pub proof fn lemma_token_login_is_strict(reply: PacketView)
    ensures
        reply_verdict(Phase::Token, reply) is LoggedIn ==> reply is LoginSuccess
            && !reply->LoginSuccess_0.created,
{
}

/// Only a stale token leads to the password: after a token login the
/// client asks for a password exactly when the server answered with
/// `ERR_LOGIN_INVALID`, and gives up on every other error code.
pub proof fn lemma_only_a_stale_token_asks(reply: PacketView)
    ensures
        reply_verdict(Phase::Token, reply) is AskPassword <==> reply == PacketView::Error(
            ERR_LOGIN_INVALID,
        ),
        reply matches PacketView::Error(code) && code != ERR_LOGIN_INVALID ==> reply_verdict(
            Phase::Token,
            reply,
        ) is Abort,
{
}

} // verus!
