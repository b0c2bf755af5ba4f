//! Protocol constants: limits, error codes and permission bits.

use vstd::prelude::*;

verus! {

/// The port that a server listens on unless it is told another one.
pub const DEFAULT_PORT: u16 = 8439;

/// The seconds for which a typing notice counts.
pub const TYPING_TIMEOUT: u8 = 10;

/// The hard bound on the length of a user name, in bytes.
pub const LIMIT_USER_NAME: usize = 128;

/// The hard bound on the length of a channel name, in bytes.
pub const LIMIT_CHANNEL_NAME: usize = 128;

/// The hard bound on the length of a role name, in bytes.
pub const LIMIT_ATTR_NAME: usize = 128;

/// The hard bound on the number of roles.
pub const LIMIT_ATTR_AMOUNT: usize = 2048;

/// The hard bound on the length of a message, in bytes.
pub const LIMIT_MESSAGE: usize = 16384;

/// The most messages that a page holds.
pub const LIMIT_MESSAGE_LIST: usize = 64;

/// A role cannot stand at the position that was asked for.
pub const ERR_ATTR_INVALID_POS: u8 = 1;

/// The name of a system role cannot change.
pub const ERR_ATTR_LOCKED_NAME: u8 = 2;

/// A name, a text or a number is beyond a configured limit.
pub const ERR_LIMIT_REACHED: u8 = 3;

/// The account, or an account at the peer's address, is banned.
pub const ERR_LOGIN_BANNED: u8 = 4;

/// The account is a bot's and the login a human's, or the reverse.
pub const ERR_LOGIN_BOT: u8 = 5;

/// The password or the token is wrong, or the name is not to be had.
pub const ERR_LOGIN_INVALID: u8 = 6;

/// The peer's address has as many connections as it may have.
pub const ERR_MAX_CONN_PER_IP: u8 = 7;

/// The request lacks a field that it needs.
pub const ERR_MISSING_FIELD: u8 = 8;

/// The requester may not do what it asked for.
pub const ERR_MISSING_PERMISSION: u8 = 9;

/// There is no role with the id that was given.
pub const ERR_UNKNOWN_ATTRIBUTE: u8 = 10;

/// There is no channel with the id that was given, or the message is in
/// another channel.
pub const ERR_UNKNOWN_CHANNEL: u8 = 11;

/// There is no message with the id that was given.
pub const ERR_UNKNOWN_MESSAGE: u8 = 12;

/// There is no user with the id that was given.
pub const ERR_UNKNOWN_USER: u8 = 13;

/// The permission to read in a channel.
pub const PERM_READ: u8 = 1;

/// The permission to write in a channel.
pub const PERM_WRITE: u8 = 2;

/// The permission to give and take roles.
pub const PERM_ASSIGN_ATTRIBUTES: u8 = 4;

/// The permission to ban users.
pub const PERM_BAN: u8 = 8;

/// The permission to create, change and delete roles.
pub const PERM_MANAGE_ATTRIBUTES: u8 = 16;

/// The permission to create, change and delete channels.
pub const PERM_MANAGE_CHANNELS: u8 = 32;

/// The permission to delete the messages of others.
pub const PERM_MANAGE_MESSAGES: u8 = 64;

/// The id of the system role that every human user holds.
pub const ROLE_HUMANS: usize = 1;

/// The id of the system role that every bot holds.
pub const ROLE_BOTS: usize = 2;

/// Role ids up to this one are reserved for the system roles.
pub const RESERVED_ROLES: usize = 2;

} // verus!
