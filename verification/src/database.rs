//! Rows of the bot's tables, as the commands read them.
use vstd::prelude::*;

verus! {

/// A warning given to a member of a guild.
pub struct Warning {
    pub id: i64,
    pub guild_id: String,
    pub user_id: String,
    pub moderator_id: String,
    pub reason: String,
    pub created_at: i64,
}

/// A giveaway: its message, its prize, when it ends and how many win.
pub struct Giveaway {
    pub id: i64,
    pub guild_id: String,
    pub channel_id: String,
    pub message_id: String,
    pub prize: String,
    pub end_time: i64,
    pub winner_count: i64,
    pub ended: i64,
    pub created_by: String,
}

} // verus!
