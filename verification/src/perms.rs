//! Discord permission bits and channel permission overwrites.
use vstd::prelude::*;

verus! {

pub const MANAGE_CHANNELS: u64 = 0x10;

pub const VIEW_CHANNEL: u64 = 0x400;

pub const SEND_MESSAGES: u64 = 0x800;

pub const MANAGE_MESSAGES: u64 = 0x2000;

pub const EMBED_LINKS: u64 = 0x4000;

pub const ATTACH_FILES: u64 = 0x8000;

pub const READ_MESSAGE_HISTORY: u64 = 0x1_0000;

/// What a member invited into a ticket may do: see, write, read back,
/// attach files and embed links.
pub const TICKET_MEMBER_ALLOW: u64 = VIEW_CHANNEL | SEND_MESSAGES | READ_MESSAGE_HISTORY
    | ATTACH_FILES | EMBED_LINKS;

/// What the bot keeps in a ticket it creates.
pub const TICKET_BOT_ALLOW: u64 = VIEW_CHANNEL | SEND_MESSAGES | READ_MESSAGE_HISTORY
    | MANAGE_CHANNELS | MANAGE_MESSAGES;

/// What the support role may do in a ticket: as a member, and manage
/// messages.
pub const TICKET_SUPPORT_ALLOW: u64 = VIEW_CHANNEL | SEND_MESSAGES | READ_MESSAGE_HISTORY
    | ATTACH_FILES | EMBED_LINKS | MANAGE_MESSAGES;

/// Every permission bit that the Discord library of this bot knows; other
/// bits are dropped when bits become permissions.
pub const KNOWN_PERMISSIONS: u64 = 0x0007_7fff_ffff_ffff;

/// Whom an overwrite applies to.
#[derive(Clone, Copy, Debug, PartialEq, Eq)]
pub enum Target {
    Role(u64),
    Member(u64),
}

/// A channel permission overwrite: bits allowed and bits denied.
#[derive(Clone, Copy, Debug, PartialEq, Eq)]
pub struct Overwrite {
    pub target: Target,
    pub allow: u64,
    pub deny: u64,
}

/// `Permissions::from_bits_truncate`, back to bits: the bits that name a
/// permission the Discord library knows.
#[verifier::external_body]
pub fn known_bits(bits: u64) -> (r: u64)
    ensures
        r == bits & KNOWN_PERMISSIONS,
{
    serenity::model::permissions::Permissions::from_bits_truncate(bits).bits()
}

} // verus!
