//! The server's configuration record and its hard upper bounds.

use crate::consts::{
    LIMIT_ATTR_AMOUNT, LIMIT_ATTR_NAME, LIMIT_CHANNEL_NAME, LIMIT_MESSAGE, LIMIT_USER_NAME,
};
use vstd::prelude::*;

verus! {

/// The limits that the server enforces, and the id of its owner.
#[derive(Debug, Clone, Copy, PartialEq, Eq, Structural)]
pub struct Config {
    pub owner_id: usize,
    pub limit_connections_per_ip: u32,
    pub limit_requests_cheap_per_10_seconds: u8,
    pub limit_requests_expensive_per_5_minutes: u8,
    pub limit_channel_name_max: usize,
    pub limit_channel_name_min: usize,
    pub limit_group_amount_max: usize,
    pub limit_group_name_max: usize,
    pub limit_group_name_min: usize,
    pub limit_message_max: usize,
    pub limit_message_min: usize,
    pub limit_user_name_max: usize,
    pub limit_user_name_min: usize,
}

/// A length range is usable when it is not empty, does not start at zero
/// and ends within the hard bound.
pub open spec fn range_ok(min: usize, max: usize, hard_max: usize) -> bool {
    min <= max && min != 0 && max <= hard_max
}

fn check_range(min: usize, max: usize, hard_max: usize) -> (ok: bool)
    ensures
        ok == range_ok(min, max, hard_max),
{
    min <= max && min != 0 && max <= hard_max
}

impl Config {
    /// Whether every limit lies within its hard bound.
    pub open spec fn valid(&self) -> bool {
        &&& range_ok(self.limit_user_name_min, self.limit_user_name_max, LIMIT_USER_NAME)
        &&& range_ok(self.limit_channel_name_min, self.limit_channel_name_max, LIMIT_CHANNEL_NAME)
        &&& range_ok(self.limit_group_name_min, self.limit_group_name_max, LIMIT_ATTR_NAME)
        &&& self.limit_group_amount_max <= LIMIT_ATTR_AMOUNT
        &&& range_ok(self.limit_message_min, self.limit_message_max, LIMIT_MESSAGE)
    }

    /// The configuration that a server starts with when it has none.
    pub fn standard() -> (config: Config)
        ensures
            config.valid(),
            config == (Config {
                owner_id: 1,
                limit_connections_per_ip: 128,
                limit_requests_cheap_per_10_seconds: 7,
                limit_requests_expensive_per_5_minutes: 2,
                limit_channel_name_max: 32,
                limit_channel_name_min: 1,
                limit_group_amount_max: 128,
                limit_group_name_max: 32,
                limit_group_name_min: 1,
                limit_message_max: 1024,
                limit_message_min: 1,
                limit_user_name_max: 32,
                limit_user_name_min: 1,
            }),
    {
        Config {
            owner_id: 1,
            limit_connections_per_ip: 128,
            limit_requests_cheap_per_10_seconds: 7,
            limit_requests_expensive_per_5_minutes: 2,
            limit_channel_name_max: 32,
            limit_channel_name_min: 1,
            limit_group_amount_max: 128,
            limit_group_name_max: 32,
            limit_group_name_min: 1,
            limit_message_max: 1024,
            limit_message_min: 1,
            limit_user_name_max: 32,
            limit_user_name_min: 1,
        }
    }

    /// Tests a configuration that was read from a file against the hard
    /// bounds.
    pub fn is_valid(&self) -> (ok: bool)
        ensures
            ok == self.valid(),
    {
        check_range(self.limit_user_name_min, self.limit_user_name_max, LIMIT_USER_NAME)
            && check_range(
            self.limit_channel_name_min,
            self.limit_channel_name_max,
            LIMIT_CHANNEL_NAME,
        ) && check_range(self.limit_group_name_min, self.limit_group_name_max, LIMIT_ATTR_NAME)
            && self.limit_group_amount_max <= LIMIT_ATTR_AMOUNT && check_range(
            self.limit_message_min,
            self.limit_message_max,
            LIMIT_MESSAGE,
        )
    }
}

} // verus!
