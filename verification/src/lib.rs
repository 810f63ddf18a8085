//! Decision logic of a Discord moderation and community bot: argument
//! parsing, giveaway draws, polls, tickets, temporary voice channels,
//! server backups and help pages.
pub mod text;
pub mod mention;
pub mod duration;
pub mod args;
pub mod database;
pub mod moderation;
pub mod giveaway;
pub mod poll;
pub mod perms;
pub mod ticket;
pub mod tempvc;
pub mod utility;
pub mod order;
pub mod owner;
pub mod help;
pub mod json;
pub mod backup;
